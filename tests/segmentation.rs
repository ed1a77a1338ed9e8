use brahmi_script::converter::Converter;
use brahmi_script::profile::Config;

#[test]
fn sthothramulu() {
    let test_word = "స్తోత్రములు";
    let config = Config::new_telugu();
    let mut converter = Converter::new();
    for chr in test_word.chars() {
        let c:u32 = chr.into(); 
        let symbol_info = config.to_symbol_info(c);
        converter.add_code_point(&symbol_info, config.virama()).unwrap();
    }
    assert!(converter.finish(config.virama()));
    let mut round_trip = String::new();
    for s in converter.syllables.iter() {
        s.append_char(&mut round_trip, &config);
    }
    assert_eq!(4, converter.syllables.len());
    assert_eq!(test_word, round_trip);
}

#[test]
fn puranalu() {
    let test_word = "పురాణాలు";
    let config = Config::new_telugu();
    let mut converter = Converter::new();
    for chr in test_word.chars() {
        let c:u32 = chr.into(); 
        let symbol_info = config.to_symbol_info(c);
        converter.add_code_point(&symbol_info, config.virama()).unwrap();
    }
    assert!(converter.finish(config.virama()));
    let mut round_trip = String::new();
    for s in converter.syllables.iter() {
        s.append_char(&mut round_trip, &config);
    }
    assert_eq!(4, converter.syllables.len());
    assert_eq!(test_word, round_trip);
}

#[test]
fn kavithvamu() {
    let test_word = "కవిత్వము";
    let config = Config::new_telugu();
    let mut converter = Converter::new();
    for chr in test_word.chars() {
        let c:u32 = chr.into(); 
        let symbol_info = config.to_symbol_info(c);
        converter.add_code_point(&symbol_info, config.virama()).unwrap();
    }
    assert!(converter.finish(config.virama()));
    let mut round_trip = String::new();
    for s in converter.syllables.iter() {
        s.append_char(&mut round_trip, &config);
    }
    assert_eq!(4, converter.syllables.len());
    assert_eq!(test_word, round_trip);
}

#[test]
fn paaschatyavidwamsulache() {
    let test_word = "పాశ్చాత్యవిద్యాంసులచే";
    let config = Config::new_telugu();
    let mut converter = Converter::new();
    for chr in test_word.chars() {
        let c:u32 = chr.into(); 
        let symbol_info = config.to_symbol_info(c);
        converter.add_code_point(&symbol_info, config.virama()).unwrap();
    }
    assert!(converter.finish(config.virama()));
    let mut round_trip = String::new();
    for s in converter.syllables.iter() {
        s.append_char(&mut round_trip, &config);
    }
    assert_eq!(8, converter.syllables.len());
    assert_eq!(test_word, round_trip);
}

#[test]
fn granthamu() {
    let test_word = "గ్రంధము";
    let config = Config::new_telugu();
    let mut converter = Converter::new();
    for chr in test_word.chars() {
        let c:u32 = chr.into(); 
        let symbol_info = config.to_symbol_info(c);
        converter.add_code_point(&symbol_info, config.virama()).unwrap();
    }
    assert!(converter.finish(config.virama()));
    let mut round_trip = String::new();
    for s in converter.syllables.iter() {
        s.append_char(&mut round_trip, &config);
    }
    assert_eq!(3, converter.syllables.len());
    assert_eq!(test_word, round_trip);
}

#[test]
fn raashtram() {
    let test_word = "రాష్ట్రం";
    let config = Config::new_telugu();
    let mut converter = Converter::new();
    for chr in test_word.chars() {
        let c:u32 = chr.into(); 
        let symbol_info = config.to_symbol_info(c);
        converter.add_code_point(&symbol_info, config.virama()).unwrap();
    }
    assert!(converter.finish(config.virama()));
    let mut round_trip = String::new();
    for s in converter.syllables.iter() {
        s.append_char(&mut round_trip, &config);
    }
    assert_eq!(2, converter.syllables.len());
    assert_eq!(test_word, round_trip);
}

#[test]
fn bhattaacharya() {
    let test_word = "భట్టాచార్య";
    let config = Config::new_telugu();
    let mut converter = Converter::new();
    for chr in test_word.chars() {
        let c:u32 = chr.into(); 
        let symbol_info = config.to_symbol_info(c);
        converter.add_code_point(&symbol_info, config.virama()).unwrap();
    }
    assert!(converter.finish(config.virama()));
    let mut round_trip = String::new();
    for s in converter.syllables.iter() {
        s.append_char(&mut round_trip, &config);
    }
    assert_eq!(4, converter.syllables.len());
    assert_eq!(test_word, round_trip);
}

#[test]
fn vignyaana_saasthram() {
    let test_word = "విజ్ఞానశాస్త్ర్రం";
    let config = Config::new_telugu();
    let mut converter = Converter::new();
    for chr in test_word.chars() {
        let c:u32 = chr.into(); 
        let symbol_info = config.to_symbol_info(c);
        converter.add_code_point(&symbol_info, config.virama()).unwrap();
    }
    assert!(converter.finish(config.virama()));
    let mut round_trip = String::new();
    for s in converter.syllables.iter() {
        s.append_char(&mut round_trip, &config);
    }
    assert_eq!(5, converter.syllables.len());
    assert_eq!(test_word, round_trip);
}

#[test]
fn khaak() {
    let test_word = "खाक़";
    let config = Config::new_devnagari();
    let mut converter = Converter::new();
    for chr in test_word.chars() {
        let c:u32 = chr.into(); 
        let symbol_info = config.to_symbol_info(c);
        converter.add_code_point(&symbol_info, config.virama()).unwrap();
    }
    converter.finish(config.virama());
    let mut round_trip = String::new();
    for s in converter.syllables.iter() {
        s.append_char(&mut round_trip, &config);
    }
    assert_eq!(2, converter.syllables.len());
    assert_eq!(test_word, round_trip);
}

#[test]
fn koee() {
    let test_word = "कोई";
    let config = Config::new_devnagari();
    let mut converter = Converter::new();
    for chr in test_word.chars() {
        let c:u32 = chr.into(); 
        let symbol_info = config.to_symbol_info(c);
        converter.add_code_point(&symbol_info, config.virama()).unwrap();
    }
    converter.finish(config.virama());
    let mut round_trip = String::new();
    for s in converter.syllables.iter() {
        s.append_char(&mut round_trip, &config);
        println!("{:?}", s);
    }
    assert_eq!(2, converter.syllables.len());
    assert_eq!(test_word, round_trip);
}

#[test]
fn fizaaon() {
    let test_word = "फ़िज़ाओं";
    let config = Config::new_devnagari();
    let mut converter = Converter::new();
    for chr in test_word.chars() {
        let c:u32 = chr.into(); 
        let symbol_info = config.to_symbol_info(c);
        converter.add_code_point(&symbol_info, config.virama()).unwrap();
    }
    converter.finish(config.virama());
    let mut round_trip = String::new();
    for s in converter.syllables.iter() {
        s.append_char(&mut round_trip, &config);
    }
    assert_eq!(3, converter.syllables.len());
    assert_eq!(test_word, round_trip);
}

#[test]
fn vyarth_gavaaye() {
    let test_word = "व्यर्थ गवाये";
    let config = Config::new_devnagari();
    let mut converter = Converter::new();
    for chr in test_word.chars() {
        let c:u32 = chr.into(); 
        let symbol_info = config.to_symbol_info(c);
        converter.add_code_point(&symbol_info, config.virama()).unwrap();
    }
    converter.finish(config.virama());
    let mut round_trip = String::new();
    for s in converter.syllables.iter() {
        s.append_char(&mut round_trip, &config);
    }
    assert_eq!(6, converter.syllables.len());
    assert_eq!(test_word, round_trip);
}

#[test]
fn jaanenadoongi() {
    let test_word = "जाने न दूँगी";
    let config = Config::new_devnagari();
    let mut converter = Converter::new();
    for chr in test_word.chars() {
        let c:u32 = chr.into(); 
        let symbol_info = config.to_symbol_info(c);
        converter.add_code_point(&symbol_info, config.virama()).unwrap();
    }
    converter.finish(config.virama());
    let mut round_trip = String::new();
    for s in converter.syllables.iter() {
        s.append_char(&mut round_trip, &config);
    }
    assert_eq!(7, converter.syllables.len());
    assert_eq!(test_word, round_trip);
}
