use vstd::prelude::*;
use vstd::string::{StrSliceExecFns, StringExecFns};
use vstd::std_specs::iter::IteratorSpec;
use crate::profile::{Config, ScriptProfile, devnagari, telugu};
use crate::syllable::SyllableView;
use crate::codec::{
    DecodeError, Diagnostic, codes_of, collect_vocab, decode_contents, decoded, encode_contents,
    run, segment_ok, segmented, vocabulary_fits,
};
use crate::vocabulary::{LoadError, SyllableMapping, SyllableMappingFile, VocabularyView, loaded};

verus! {

broadcast use vstd::string::axiom_spec_iter, vstd::string::next_postcondition;

/// Why a tokenizer cannot be made.
#[derive(Debug, PartialEq, Eq, Structural, Clone, Copy)]
pub enum TokenizerError {
    /// The script name is none of the known ones.
    UnknownScript,
    /// The persisted vocabulary cannot be loaded.
    Load(LoadError),
}

/// The profile of the script called `name`, if there is one.
pub open spec fn script_profile(name: Seq<char>) -> Option<ScriptProfile> {
    if name == "telugu"@ {
        Some(telugu())
    } else if name == "devnagari"@ {
        Some(devnagari())
    } else {
        None
    }
}

/// The code points of the characters `s`.
pub open spec fn code_points_of(s: Seq<char>) -> Seq<u32> {
    s.map_values(|c: char| c as u32)
}

/// The code points of the characters of `text`, in order.
pub fn text_code_points(text: &str) -> (r: Vec<u32>)
    ensures
        r@ == code_points_of(text@),
{
    let n = text.unicode_len();
    let mut it = text.chars();
    let mut out: Vec<u32> = Vec::new();
    let mut i: usize = 0;
    while i < n
        invariant
            n == text@.len(),
            i <= n,
            it.remaining() == text@.skip(i as int),
            out@ == code_points_of(text@.take(i as int)),
        decreases n - i,
    {
        assert(it.remaining().len() > 0);
        if let Some(c) = it.next() {
            out.push(c as u32);
        }
        assert(text@.skip(i as int).drop_first() =~= text@.skip(i + 1));
        i = i + 1;
        assert(code_points_of(text@.take(i as int)) =~= code_points_of(text@.take(i - 1 as int)).push(
            text@[i - 1] as u32,
        ));
    }
    assert(text@.take(n as int) =~= text@);
    out
}

/// Tokenization of texts in one Brahmic script against a vocabulary.
pub struct Tokenizer {
    syllabary: SyllableMapping,
    config: Config,
}

impl Tokenizer {
    /// The internal invariant.
    pub closed spec fn wf(&self) -> bool {
        self.syllabary.wf() && self.config@.wf()
    }

    /// The vocabulary.
    pub closed spec fn vocabulary(&self) -> VocabularyView {
        self.syllabary@
    }

    /// The classification tables of the script.
    pub closed spec fn profile(&self) -> ScriptProfile {
        self.config@
    }

    fn with_config(config: Config, vocabulary: &SyllableMappingFile) -> (r: Result<
        Tokenizer,
        LoadError,
    >)
        requires
            config@.wf(),
        ensures
            match r {
                Ok(t) => t.wf() && t.profile() == config@ && loaded(
                    vocabulary.entries(),
                    vocabulary.maximum,
                    config@,
                ) == Ok::<VocabularyView, LoadError>(t.vocabulary()),
                Err(e) => loaded(vocabulary.entries(), vocabulary.maximum, config@) == Err::<
                    VocabularyView,
                    LoadError,
                >(e),
            },
    {
        match vocabulary.to_syllable_mapping(&config) {
            Ok(syllabary) => Ok(Tokenizer { syllabary, config }),
            Err(e) => Err(e),
        }
    }

    /// A Telugu tokenizer with the vocabulary of a persisted file.
    pub fn new_telugu(vocabulary: &SyllableMappingFile) -> (r: Result<Tokenizer, LoadError>)
        ensures
            match r {
                Ok(t) => t.wf() && t.profile() == telugu() && loaded(
                    vocabulary.entries(),
                    vocabulary.maximum,
                    telugu(),
                ) == Ok::<VocabularyView, LoadError>(t.vocabulary()),
                Err(e) => loaded(vocabulary.entries(), vocabulary.maximum, telugu()) == Err::<
                    VocabularyView,
                    LoadError,
                >(e),
            },
    {
        Tokenizer::with_config(Config::new_telugu(), vocabulary)
    }

    /// A Devanagari tokenizer with the vocabulary of a persisted file.
    pub fn new_devnagari(vocabulary: &SyllableMappingFile) -> (r: Result<Tokenizer, LoadError>)
        ensures
            match r {
                Ok(t) => t.wf() && t.profile() == devnagari() && loaded(
                    vocabulary.entries(),
                    vocabulary.maximum,
                    devnagari(),
                ) == Ok::<VocabularyView, LoadError>(t.vocabulary()),
                Err(e) => loaded(vocabulary.entries(), vocabulary.maximum, devnagari()) == Err::<
                    VocabularyView,
                    LoadError,
                >(e),
            },
    {
        Tokenizer::with_config(Config::new_devnagari(), vocabulary)
    }

    /// A tokenizer for the script called `script_name` ("telugu" or
    /// "devnagari") with the vocabulary of a persisted file.
    pub fn new(script_name: &str, vocabulary: &SyllableMappingFile) -> (r: Result<
        Tokenizer,
        TokenizerError,
    >)
        ensures
            match script_profile(script_name@) {
                None => r == Err::<Tokenizer, TokenizerError>(TokenizerError::UnknownScript),
                Some(p) => match r {
                    Ok(t) => t.wf() && t.profile() == p && loaded(
                        vocabulary.entries(),
                        vocabulary.maximum,
                        p,
                    ) == Ok::<VocabularyView, LoadError>(t.vocabulary()),
                    Err(e) => exists|le: LoadError|
                        e == TokenizerError::Load(le) && loaded(
                            vocabulary.entries(),
                            vocabulary.maximum,
                            p,
                        ) == Err::<VocabularyView, LoadError>(le),
                },
            },
    {
        let telugu_name = String::from_str("telugu");
        let devnagari_name = String::from_str("devnagari");
        let name = String::from_str(script_name);
        let made = if name == telugu_name {
            Tokenizer::new_telugu(vocabulary)
        } else if name == devnagari_name {
            Tokenizer::new_devnagari(vocabulary)
        } else {
            return Err(TokenizerError::UnknownScript);
        };
        match made {
            Ok(t) => Ok(t),
            Err(e) => Err(TokenizerError::Load(e)),
        }
    }

    /// The tokens of `text`, with no boundary marker; failed steps of the
    /// segmenter go to `diagnostics`.
    pub fn encode(&self, text: &str, diagnostics: &mut Vec<Diagnostic>) -> (r: Vec<u32>)
        requires
            self.wf(),
        ensures
            r@ == codes_of(
                self.vocabulary(),
                segmented(self.profile(), code_points_of(text@)),
                self.profile().unknown,
            ),
            final(diagnostics)@ == old(diagnostics)@ + run(
                self.profile(),
                code_points_of(text@),
            ).diagnostics,
    {
        let contents = text_code_points(text);
        let r = encode_contents(contents.as_slice(), &self.syllabary, &self.config, false, diagnostics);
        assert(r@ =~= codes_of(
            self.vocabulary(),
            segmented(self.profile(), code_points_of(text@)),
            self.profile().unknown,
        ));
        r
    }

    /// The tokens of the code points of a file, after the boundary marker's
    /// token; failed steps of the segmenter go to `diagnostics`.
    pub fn encode_file(&self, contents: &[u32], diagnostics: &mut Vec<Diagnostic>) -> (r: Vec<u32>)
        requires
            self.wf(),
        ensures
            r@ == seq![
                self.vocabulary().code_of(
                    SyllableView::Meta(self.profile().boundary_marker()),
                    self.profile().unknown,
                ),
            ] + codes_of(self.vocabulary(), segmented(self.profile(), contents@), self.profile().unknown),
            final(diagnostics)@ == old(diagnostics)@ + run(self.profile(), contents@).diagnostics,
    {
        encode_contents(contents, &self.syllabary, &self.config, true, diagnostics)
    }

    /// The text of the tokens `encoded`.
    pub fn decode(&self, encoded: &[u32]) -> (r: Result<String, DecodeError>)
        requires
            self.wf(),
        ensures
            match r {
                Ok(text) => decoded(self.vocabulary(), encoded@) == Ok::<Seq<char>, DecodeError>(
                    text@,
                ),
                Err(e) => decoded(self.vocabulary(), encoded@) == Err::<Seq<char>, DecodeError>(e),
            },
    {
        decode_contents(encoded, &self.syllabary, &self.config)
    }

    /// Adds the syllables of the code points of a corpus to the vocabulary;
    /// returns whether every step succeeded (false too when the ids might run
    /// out, and then the vocabulary is left as it is). Failed steps go to
    /// `diagnostics`.
    pub fn collect_vocab(&mut self, contents: &[u32], diagnostics: &mut Vec<Diagnostic>) -> (r: bool)
        requires
            old(self).wf(),
        ensures
            final(self).wf(),
            final(self).profile() == old(self).profile(),
            final(diagnostics)@ == old(diagnostics)@ + run(old(self).profile(), contents@).diagnostics,
            vocabulary_fits(old(self).vocabulary(), old(self).profile(), contents@) ==> final(self).vocabulary() == old(self).vocabulary().insert_all(
                segmented(old(self).profile(), contents@),
            ) && r == segment_ok(old(self).profile(), contents@),
            !vocabulary_fits(old(self).vocabulary(), old(self).profile(), contents@) ==> final(self).vocabulary() == old(self).vocabulary() && !r,
    {
        collect_vocab(contents, &mut self.syllabary, &self.config, diagnostics)
    }

    /// The persisted form of the vocabulary.
    pub fn vocabulary_file(&self) -> (r: SyllableMappingFile)
        requires
            self.wf(),
        ensures
            r.entries() == self.vocabulary().entries(),
            r.maximum == self.vocabulary().maximum(),
    {
        self.syllabary.to_syllable_mapping_file()
    }
}

} // verus!
