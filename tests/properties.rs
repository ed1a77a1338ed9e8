use brahmi_script::codec::{DecodeError, Diagnostic};
use brahmi_script::converter::{ConvertError, Converter};
use brahmi_script::profile::{Config, SymbolInfo};
use brahmi_script::syllable::Syllable;
use brahmi_script::tokenizer::{Tokenizer, TokenizerError};
use brahmi_script::vocabulary::{LoadError, SyllableMapping, SyllableMappingFile, SyllableToken};

fn empty_file() -> SyllableMappingFile {
    SyllableMappingFile { syllables: Vec::new(), maximum: 0 }
}

fn code_points(text: &str) -> Vec<u32> {
    text.chars().map(|c| c as u32).collect()
}

fn segment_all(config: &Config, text: &str) -> (Converter, bool) {
    let mut converter = Converter::new();
    let mut ok = true;
    for c in code_points(text) {
        let symbol = config.to_symbol_info(c);
        if converter.add_code_point(&symbol, config.virama()).is_err() {
            ok = false;
        }
    }
    let flushed = converter.finish(config.virama());
    (converter, ok && flushed)
}

#[test]
fn telugu_classes() {
    let config = Config::new_telugu();
    assert_eq!(config.to_symbol_info(0xC02), SymbolInfo::VowelSuffix(0xC02));
    assert_eq!(config.to_symbol_info(0xC3E), SymbolInfo::VowelSign(0xC3E));
    assert_eq!(config.to_symbol_info(0xC05), SymbolInfo::Vowel(0xC05));
    assert_eq!(config.to_symbol_info(0xC15), SymbolInfo::Consonant(0xC15));
    assert_eq!(config.to_symbol_info(0xC4D), SymbolInfo::Virama(0xC4D));
    assert_eq!(config.to_symbol_info(0xC55), SymbolInfo::Ignored(0xC55));
    assert_eq!(config.to_symbol_info(0x5A), SymbolInfo::Ignored(0x5A));
    assert_eq!(config.to_symbol_info(0xC77), SymbolInfo::Ignored(0xC77));
    assert_eq!(config.to_symbol_info(0xC66), SymbolInfo::Digit(48));
    assert_eq!(config.to_symbol_info(0xC6F), SymbolInfo::Digit(57));
    assert_eq!(config.to_symbol_info(0x41), SymbolInfo::OutOfRange(0x41));
    assert_eq!(config.to_symbol_info(0xC0D), SymbolInfo::OutOfRange(0xC0D));
}

#[test]
fn devnagari_classes() {
    let config = Config::new_devnagari();
    assert_eq!(config.to_symbol_info(0x903), SymbolInfo::VowelSuffix(0x903));
    assert_eq!(config.to_symbol_info(0x94D), SymbolInfo::VowelSign(0x94D));
    assert_eq!(config.to_symbol_info(0x964), SymbolInfo::EndMarker(0x964));
    assert_eq!(config.to_symbol_info(0x965), SymbolInfo::EndMarker(0x965));
    assert_eq!(config.to_symbol_info(0x969), SymbolInfo::Digit(51));
    assert_eq!(config.to_symbol_info(0x970), SymbolInfo::OutOfRange(0x970));
}

#[test]
fn classification_covers_scalar_range() {
    for config in [Config::new_telugu(), Config::new_devnagari()] {
        for c in (0u32..=0x10FFFF).step_by(331) {
            let symbol = config.to_symbol_info(c);
            match symbol {
                SymbolInfo::Digit(d) => assert!((48..58).contains(&d)),
                _ => assert_eq!(symbol.get_u32(), c),
            }
        }
    }
}

#[test]
fn table_predicates() {
    let config = Config::new_telugu();
    assert!(config.is_vowel_symbol(0xC02));
    assert!(config.is_vowel_symbol(0xC3F));
    assert!(!config.is_vowel_symbol(0xC15));
    assert!(config.is_reserved(0xC0D));
    assert!(config.is_digit(0xC68));
    assert_eq!(config.to_ascii_digit(0xC68), 50);
    assert!(config.is_separator(0x20));
    assert!(config.is_separator(0x2014));
    assert!(!config.is_separator(0xC15));
}

#[test]
fn flush_of_one_symbol_is_mono() {
    let mut converter = Converter::new();
    converter.add_code_point(&SymbolInfo::Vowel(0xC05), 0xC4D).unwrap();
    assert!(converter.clear_stack());
    assert_eq!(converter.syllables, vec![Syllable::Mono(0xC05)]);
    assert!(converter.stack.is_empty());
}

#[test]
fn flush_of_eight_symbols_is_one_syllable() {
    let mut converter = Converter::new();
    for i in 0..8u32 {
        converter.add_code_point(&SymbolInfo::VowelSign(0xC3E + i), 0xC4D).unwrap();
    }
    assert!(converter.finish(0xC4D));
    let expected: Vec<u32> = (0..8u32).map(|i| 0xC3E + i).collect();
    assert_eq!(converter.syllables, vec![Syllable::Multi(expected)]);
    assert!(converter.stack.is_empty());
}

#[test]
fn flush_of_nine_symbols_fails_and_clears() {
    let mut converter = Converter::new();
    for i in 0..9u32 {
        converter.add_code_point(&SymbolInfo::VowelSign(0xC3E + i), 0xC4D).unwrap();
    }
    assert!(!converter.finish(0xC4D));
    assert!(converter.syllables.is_empty());
    assert!(converter.stack.is_empty());
}

#[test]
fn conjunct_with_vowel_sign_is_one_syllable() {
    let config = Config::new_telugu();
    let (converter, ok) = segment_all(&config, "\u{C15}\u{C4D}\u{C37}\u{C3E}");
    assert!(ok);
    assert_eq!(converter.syllables, vec![Syllable::Multi(vec![0xC15, 0xC4D, 0xC37, 0xC3E])]);
}

#[test]
fn vowel_sign_opens_a_cluster() {
    let config = Config::new_telugu();
    let (converter, ok) = segment_all(&config, "\u{C3E}");
    assert!(ok);
    assert_eq!(converter.syllables, vec![Syllable::Mono(0xC3E)]);
}

#[test]
fn virama_without_cluster_fails() {
    let mut converter = Converter::new();
    let r = converter.add_code_point(&SymbolInfo::Virama(0xC4D), 0xC4D);
    assert_eq!(r, Err(ConvertError::UnexpectedVirama(0xC4D)));
    assert!(converter.stack.is_empty());
}

#[test]
fn suffix_without_cluster_fails() {
    let mut converter = Converter::new();
    let r = converter.add_code_point(&SymbolInfo::VowelSuffix(0xC02), 0xC4D);
    assert_eq!(r, Err(ConvertError::UnexpectedSuffix(0xC02)));
    assert!(converter.syllables.is_empty());
}

#[test]
fn overflow_before_consonant_drops_both() {
    let mut converter = Converter::new();
    for i in 0..9u32 {
        converter.add_code_point(&SymbolInfo::VowelSign(0xC3E + i), 0xC4D).unwrap();
    }
    let r = converter.add_code_point(&SymbolInfo::Consonant(0xC15), 0xC4D);
    assert_eq!(r, Err(ConvertError::ClusterOverflow(SymbolInfo::Consonant(0xC15))));
    assert!(converter.stack.is_empty());
    assert!(converter.syllables.is_empty());
}

#[test]
fn digit_is_emitted_even_after_overflow() {
    let mut converter = Converter::new();
    for i in 0..9u32 {
        converter.add_code_point(&SymbolInfo::VowelSign(0xC3E + i), 0xC4D).unwrap();
    }
    let r = converter.add_code_point(&SymbolInfo::Digit(49), 0xC4D);
    assert_eq!(r, Err(ConvertError::ClusterOverflow(SymbolInfo::Digit(49))));
    assert_eq!(converter.syllables, vec![Syllable::Mono(49)]);
}

#[test]
fn ignored_code_point_is_dropped() {
    let config = Config::new_telugu();
    let (converter, ok) = segment_all(&config, "\u{C15}\u{C55}\u{C3E}");
    assert!(ok);
    assert_eq!(converter.syllables, vec![Syllable::Multi(vec![0xC15, 0xC3E])]);
}

#[test]
fn fresh_vocabulary_holds_identity_range() {
    let config = Config::new_telugu();
    let vocabulary = SyllableMapping::new(&config);
    assert_eq!(vocabulary.len(), 130);
    for t in 0..128u32 {
        assert_eq!(vocabulary.get_syllable(t), Some(Syllable::Mono(t)));
        assert_eq!(vocabulary.syllable_code(&Syllable::Mono(t), &config), t);
    }
    assert_eq!(vocabulary.get_syllable(128), Some(Syllable::Meta(0xC7F)));
    assert_eq!(vocabulary.get_syllable(129), Some(Syllable::Meta(0xC77)));
    assert_eq!(vocabulary.get_syllable(130), None);
    let devnagari = SyllableMapping::new(&Config::new_devnagari());
    assert_eq!(devnagari.len(), 131);
    assert_eq!(devnagari.get_syllable(65), Some(Syllable::Mono(65)));
    assert_eq!(devnagari.get_syllable(130), Some(Syllable::Meta(0x965)));
}

#[test]
fn lookup_inverts_reverse_after_inserts() {
    let config = Config::new_telugu();
    let mut vocabulary = SyllableMapping::new(&config);
    vocabulary.add_syllable(Syllable::Mono(0xC05));
    vocabulary.add_syllable(Syllable::Multi(vec![0xC15, 0xC3E]));
    vocabulary.add_syllable(Syllable::Mono(0xC05));
    vocabulary.add_syllable(Syllable::Multi(vec![0xC15, 0xC4D, 0xC37]));
    vocabulary.add_syllable(Syllable::Mono(97));
    assert_eq!(vocabulary.len(), 133);
    assert_eq!(vocabulary.syllable_code(&Syllable::Mono(0xC05), &config), 130);
    assert_eq!(vocabulary.syllable_code(&Syllable::Multi(vec![0xC15, 0xC3E]), &config), 131);
    for t in 0..vocabulary.len() as u32 {
        let s = vocabulary.get_syllable(t).unwrap();
        assert_eq!(vocabulary.syllable_code(&s, &config), t);
    }
}

#[test]
fn missing_syllable_gives_unknown_code_point() {
    let config = Config::new_telugu();
    let vocabulary = SyllableMapping::new(&config);
    assert_eq!(vocabulary.syllable_code(&Syllable::Mono(0xC15), &config), 0xC7F);
    let tokenizer = Tokenizer::new("telugu", &empty_file()).unwrap();
    let mut diagnostics: Vec<Diagnostic> = Vec::new();
    assert_eq!(tokenizer.encode("\u{C15}", &mut diagnostics), vec![0xC7F]);
}

#[test]
fn ascii_text_uses_identity_tokens() {
    let tokenizer = Tokenizer::new("telugu", &empty_file()).unwrap();
    let mut diagnostics: Vec<Diagnostic> = Vec::new();
    assert_eq!(tokenizer.encode("aB", &mut diagnostics), vec![97, 66]);
    assert!(diagnostics.is_empty());
}

#[test]
fn encode_file_starts_with_boundary_marker() {
    let telugu = Tokenizer::new("telugu", &empty_file()).unwrap();
    let mut diagnostics: Vec<Diagnostic> = Vec::new();
    assert_eq!(telugu.encode_file(&code_points("a"), &mut diagnostics), vec![129, 97]);
    let devnagari = Tokenizer::new("devnagari", &empty_file()).unwrap();
    assert_eq!(devnagari.encode_file(&[], &mut diagnostics), vec![130]);
}

#[test]
fn unknown_script_is_refused() {
    assert!(matches!(
        Tokenizer::new("klingon", &empty_file()),
        Err(TokenizerError::UnknownScript)
    ));
}

#[test]
fn overlong_conjunct_fails_but_scan_goes_on() {
    let mut tokenizer = Tokenizer::new("telugu", &empty_file()).unwrap();
    let mut run = String::from("\u{C15}");
    for _ in 0..8 {
        run.push('\u{C4D}');
        run.push('\u{C15}');
    }
    let corpus = format!("\u{C05}\u{C2E} {} \u{C32}\u{C41}", run);
    let mut diagnostics: Vec<Diagnostic> = Vec::new();
    assert!(!tokenizer.collect_vocab(&code_points(&corpus), &mut diagnostics));
    assert_eq!(diagnostics.len(), 1);
    let d = diagnostics[0];
    assert_eq!(d.error, ConvertError::ClusterOverflow(SymbolInfo::OutOfRange(0x20)));
    assert_eq!(d.index, 20);
    assert_eq!(d.line, 1);
    assert_eq!(d.column, 21);
    assert_eq!(d.code_point, 0x20);
    let mut more: Vec<Diagnostic> = Vec::new();
    let encoded = tokenizer.encode("\u{C05}\u{C2E} \u{C32}\u{C41}", &mut more);
    assert_eq!(encoded, vec![130, 131, 32, 132]);
    assert_eq!(tokenizer.vocabulary_file().syllables.len(), 133);
}

#[test]
fn diagnostics_count_lines_and_columns() {
    let tokenizer = Tokenizer::new("telugu", &empty_file()).unwrap();
    let mut diagnostics: Vec<Diagnostic> = Vec::new();
    tokenizer.encode("\u{C05}\n\u{C4D}", &mut diagnostics);
    assert_eq!(
        diagnostics,
        vec![Diagnostic {
            error: ConvertError::UnexpectedVirama(0xC4D),
            index: 2,
            line: 2,
            column: 1,
            code_point: 0xC4D,
        }]
    );
}

#[test]
fn closed_vocabulary_round_trip() {
    let mut tokenizer = Tokenizer::new("telugu", &empty_file()).unwrap();
    let text = "\u{C38}\u{C4D}\u{C24}\u{C4B}\u{C24}\u{C4D}\u{C30}\u{C2E}\u{C41}\u{C32}\u{C41} \u{C2A}\u{C41}\u{C30}\u{C3E}\u{C23}\u{C3E}\u{C32}\u{C41}\n";
    let mut diagnostics: Vec<Diagnostic> = Vec::new();
    assert!(tokenizer.collect_vocab(&code_points(text), &mut diagnostics));
    let encoded = tokenizer.encode(text, &mut diagnostics);
    assert!(!encoded.contains(&0xC7F));
    assert_eq!(tokenizer.decode(&encoded), Ok(text.to_string()));
    assert!(diagnostics.is_empty());
}

#[test]
fn digit_decodes_to_ascii() {
    let tokenizer = Tokenizer::new("telugu", &empty_file()).unwrap();
    let mut diagnostics: Vec<Diagnostic> = Vec::new();
    let encoded = tokenizer.encode("\u{C67}\u{C69}", &mut diagnostics);
    assert_eq!(encoded, vec![49, 51]);
    assert_eq!(tokenizer.decode(&encoded), Ok("13".to_string()));
}

#[test]
fn decode_of_unmapped_token_fails() {
    let tokenizer = Tokenizer::new("telugu", &empty_file()).unwrap();
    assert_eq!(tokenizer.decode(&[97, 999, 98]), Err(DecodeError::UnmappedToken(999)));
    assert_eq!(tokenizer.decode(&[104, 105]), Ok("hi".to_string()));
    assert_eq!(tokenizer.decode(&[]), Ok(String::new()));
}

#[test]
fn decode_of_non_scalar_fails() {
    let file = SyllableMappingFile {
        syllables: vec![SyllableToken { syllable: Syllable::Mono(0xD800), token: 1 }],
        maximum: 1,
    };
    let tokenizer = Tokenizer::new("telugu", &file).unwrap();
    assert_eq!(tokenizer.decode(&[0, 1]), Err(DecodeError::InvalidCodePoint(1)));
}

#[test]
fn loaded_vocabulary_keeps_ids_and_fills_gaps() {
    let config = Config::new_telugu();
    let file = SyllableMappingFile {
        syllables: vec![
            SyllableToken { syllable: Syllable::Mono(0), token: 0 },
            SyllableToken { syllable: Syllable::Multi(vec![0xC15, 0xC3E]), token: 5 },
        ],
        maximum: 5,
    };
    let vocabulary = file.to_syllable_mapping(&config).unwrap();
    assert_eq!(vocabulary.len(), 8);
    assert_eq!(vocabulary.get_syllable(3), Some(Syllable::Mono(0)));
    assert_eq!(vocabulary.syllable_code(&Syllable::Multi(vec![0xC15, 0xC3E]), &config), 5);
    assert_eq!(vocabulary.syllable_code(&Syllable::Meta(0xC7F), &config), 6);
    assert_eq!(vocabulary.syllable_code(&Syllable::Meta(0xC77), &config), 7);
    assert_eq!(vocabulary.syllable_code(&Syllable::Mono(97), &config), 0xC7F);
}

#[test]
fn loaded_vocabulary_keeps_present_control_tokens() {
    let config = Config::new_telugu();
    let file = SyllableMappingFile {
        syllables: vec![
            SyllableToken { syllable: Syllable::Meta(0xC77), token: 0 },
            SyllableToken { syllable: Syllable::Meta(0xC7F), token: 1 },
        ],
        maximum: 1,
    };
    let vocabulary = file.to_syllable_mapping(&config).unwrap();
    assert_eq!(vocabulary.len(), 2);
    assert_eq!(vocabulary.syllable_code(&Syllable::Meta(0xC77), &config), 0);
}

#[test]
fn load_rejects_token_beyond_maximum() {
    let file = SyllableMappingFile {
        syllables: vec![SyllableToken { syllable: Syllable::Mono(7), token: 4 }],
        maximum: 3,
    };
    assert!(matches!(
        file.to_syllable_mapping(&Config::new_telugu()),
        Err(LoadError::TokenBeyondMaximum(4))
    ));
}

#[test]
fn load_rejects_conflicting_entries() {
    let config = Config::new_telugu();
    let same_token = SyllableMappingFile {
        syllables: vec![
            SyllableToken { syllable: Syllable::Mono(7), token: 2 },
            SyllableToken { syllable: Syllable::Mono(8), token: 2 },
        ],
        maximum: 3,
    };
    assert!(matches!(
        same_token.to_syllable_mapping(&config),
        Err(LoadError::ConflictingEntry(2))
    ));
    let same_syllable = SyllableMappingFile {
        syllables: vec![
            SyllableToken { syllable: Syllable::Mono(7), token: 1 },
            SyllableToken { syllable: Syllable::Mono(7), token: 3 },
        ],
        maximum: 3,
    };
    assert!(matches!(
        same_syllable.to_syllable_mapping(&config),
        Err(LoadError::ConflictingEntry(3))
    ));
}

#[test]
fn load_rejects_maximum_without_room() {
    let file = SyllableMappingFile {
        syllables: vec![SyllableToken { syllable: Syllable::Mono(7), token: 0 }],
        maximum: u32::MAX - 1,
    };
    assert!(matches!(
        file.to_syllable_mapping(&Config::new_telugu()),
        Err(LoadError::TooManyTokens(m)) if m == u32::MAX - 1
    ));
    assert!(matches!(
        Tokenizer::new("telugu", &file),
        Err(TokenizerError::Load(LoadError::TooManyTokens(_)))
    ));
}

#[test]
fn persisted_vocabulary_reloads_to_the_same() {
    let mut tokenizer = Tokenizer::new("devnagari", &empty_file()).unwrap();
    let text = "\u{935}\u{94D}\u{92F}\u{930}\u{94D}\u{925} \u{917}\u{935}\u{93E}\u{92F}\u{947}";
    let mut diagnostics: Vec<Diagnostic> = Vec::new();
    assert!(tokenizer.collect_vocab(&code_points(text), &mut diagnostics));
    let file = tokenizer.vocabulary_file();
    assert_eq!(file.maximum, 135);
    assert_eq!(file.syllables.len(), 136);
    assert_eq!(file.syllables[0].token, 0);
    assert_eq!(file.syllables[131].syllable, Syllable::Multi(vec![0x935, 0x94D, 0x92F]));
    let reloaded = Tokenizer::new("devnagari", &file).unwrap();
    let mut more: Vec<Diagnostic> = Vec::new();
    let encoded = reloaded.encode(text, &mut more);
    assert_eq!(encoded, tokenizer.encode(text, &mut more));
    assert_eq!(reloaded.decode(&encoded), Ok(text.to_string()));
}

#[test]
fn syllable_text_and_equality() {
    let config = Config::new_telugu();
    let mut text = String::from("x");
    Syllable::Multi(vec![0xC15, 0xC3E]).append_char(&mut text, &config);
    Syllable::Meta(0x41).append_char(&mut text, &config);
    assert_eq!(text, "x\u{C15}\u{C3E}A");
    assert_ne!(Syllable::Mono(5), Syllable::Meta(5));
    assert_ne!(Syllable::Multi(vec![1, 2]), Syllable::Multi(vec![2, 1]));
    assert_eq!(Syllable::Multi(vec![1, 2]).duplicate(), Syllable::Multi(vec![1, 2]));
}
