use vstd::prelude::*;

verus! {

/// What one code point is to the segmenter, carrying the code point
/// (for a digit: its ASCII digit).
#[derive(Debug, PartialEq, Eq, Structural, Clone, Copy)]
pub enum SymbolInfo {
    VowelSuffix(u32),
    VowelSign(u32),
    Vowel(u32),
    Consonant(u32),
    Virama(u32),
    Ignored(u32),
    Digit(u32),
    EndMarker(u32),
    OutOfRange(u32),
}

impl SymbolInfo {
    /// The code point that the symbol carries.
    pub open spec fn value(self) -> u32 {
        match self {
            SymbolInfo::VowelSuffix(i) => i,
            SymbolInfo::VowelSign(i) => i,
            SymbolInfo::Vowel(i) => i,
            SymbolInfo::Consonant(i) => i,
            SymbolInfo::Virama(i) => i,
            SymbolInfo::Ignored(i) => i,
            SymbolInfo::Digit(i) => i,
            SymbolInfo::EndMarker(i) => i,
            SymbolInfo::OutOfRange(i) => i,
        }
    }

    /// The code point that the symbol carries.
    pub fn get_u32(&self) -> (r: u32)
        ensures
            r == self.value(),
    {
        match *self {
            SymbolInfo::VowelSuffix(i) => i,
            SymbolInfo::VowelSign(i) => i,
            SymbolInfo::Vowel(i) => i,
            SymbolInfo::Consonant(i) => i,
            SymbolInfo::Virama(i) => i,
            SymbolInfo::Ignored(i) => i,
            SymbolInfo::Digit(i) => i,
            SymbolInfo::EndMarker(i) => i,
            SymbolInfo::OutOfRange(i) => i,
        }
    }
}

/// The classification tables of one script.
pub struct ScriptProfile {
    pub independent_vowels: Seq<u32>,
    pub consonants: Seq<u32>,
    pub vowel_suffixes: Seq<u32>,
    pub vowel_signs: Seq<u32>,
    pub reserved: Seq<u32>,
    pub ignored: Seq<u32>,
    pub digits: Seq<u32>,
    pub virama: u32,
    pub end_of_text: Seq<u32>,
    pub unknown: u32,
}

impl ScriptProfile {
    /// The digits are distinct and at most ten, one for each ASCII digit;
    /// there is at least one end-of-text marker, the markers are distinct
    /// and differ from the unknown sentinel.
    pub open spec fn wf(self) -> bool {
        &&& self.digits.no_duplicates()
        &&& self.digits.len() <= 10
        &&& 1 <= self.end_of_text.len() <= 8
        &&& self.end_of_text.no_duplicates()
        &&& !self.end_of_text.contains(self.unknown)
    }

    /// The class of code point `c`: the first table that holds it decides.
    pub open spec fn classify(self, c: u32) -> SymbolInfo {
        if self.vowel_suffixes.contains(c) {
            SymbolInfo::VowelSuffix(c)
        } else if self.vowel_signs.contains(c) {
            SymbolInfo::VowelSign(c)
        } else if self.independent_vowels.contains(c) {
            SymbolInfo::Vowel(c)
        } else if self.consonants.contains(c) {
            SymbolInfo::Consonant(c)
        } else if c == self.virama {
            SymbolInfo::Virama(c)
        } else if self.ignored.contains(c) {
            SymbolInfo::Ignored(c)
        } else if self.digits.contains(c) {
            SymbolInfo::Digit((48 + self.digits.index_of(c)) as u32)
        } else if self.end_of_text.contains(c) {
            SymbolInfo::EndMarker(c)
        } else {
            SymbolInfo::OutOfRange(c)
        }
    }

    /// The code point that ends a text: the last end-of-text marker.
    pub open spec fn boundary_marker(self) -> u32 {
        self.end_of_text.last()
    }
}

/// The Telugu tables.
pub open spec fn telugu() -> ScriptProfile {
    ScriptProfile {
        independent_vowels: seq![0xC05, 0xC06, 0xC07, 0xC08, 0xC09, 0xC0A, 0xC0B, 0xC0C, 0xC0E, 0xC0F, 0xC10, 0xC12, 0xC13, 0xC14, 0xC60, 0xC61],
        consonants: seq![0xC15, 0xC16, 0xC17, 0xC18, 0xC19, 0xC1A, 0xC1B, 0xC1C, 0xC1D, 0xC1E, 0xC1F, 0xC20, 0xC21, 0xC22, 0xC23, 0xC24, 0xC25, 0xC26, 0xC27, 0xC28, 0xC2A, 0xC2B, 0xC2C, 0xC2D, 0xC2E, 0xC2F, 0xC30, 0xC31, 0xC32, 0xC33, 0xC34, 0xC35, 0xC36, 0xC37, 0xC38, 0xC39, 0xC58, 0xC59, 0xC5A],
        vowel_suffixes: seq![0xC00, 0xC01, 0xC02, 0xC03, 0xC04],
        vowel_signs: seq![0xC3E, 0xC3F, 0xC40, 0xC41, 0xC42, 0xC43, 0xC44, 0xC46, 0xC47, 0xC48, 0xC4A, 0xC4B, 0xC4C, 0xC62, 0xC63],
        reserved: seq![0xC0D, 0xC11, 0xC29, 0xC3A, 0xC3B, 0xC45, 0xC49, 0xC4E, 0xC4F, 0xC50, 0xC51, 0xC52, 0xC53, 0xC54, 0xC57, 0xC5B, 0xC5C, 0xC5E, 0xC5F, 0xC64, 0xC65, 0xC70, 0xC71, 0xC72, 0xC73, 0xC74, 0xC75, 0xC76],
        ignored: seq![0xC55, 0x5A, 0xC5D, 0xC77, 0xC78, 0xC79, 0xC7A, 0xC7B, 0xC7C, 0xC7D, 0xC7E, 0xC7F],
        digits: seq![0xC66, 0xC67, 0xC68, 0xC69, 0xC6A, 0xC6B, 0xC6C, 0xC6D, 0xC6E, 0xC6F],
        virama: 0xC4D,
        end_of_text: seq![0xC77],
        unknown: 0xC7F,
    }
}

/// The Devanagari tables.
pub open spec fn devnagari() -> ScriptProfile {
    ScriptProfile {
        independent_vowels: seq![0x904, 0x905, 0x906, 0x907, 0x908, 0x909, 0x90A, 0x90B, 0x90C, 0x90D, 0x90E, 0x90F, 0x910, 0x911, 0x912, 0x913, 0x914, 0x950, 0x960, 0x961],
        consonants: seq![0x915, 0x916, 0x917, 0x918, 0x919, 0x91A, 0x91B, 0x91C, 0x91D, 0x91E, 0x91F, 0x920, 0x921, 0x922, 0x923, 0x924, 0x925, 0x926, 0x927, 0x928, 0x929, 0x92A, 0x92B, 0x92C, 0x92D, 0x92E, 0x92F, 0x930, 0x931, 0x932, 0x933, 0x934, 0x935, 0x936, 0x937, 0x938, 0x939, 0x958, 0x959, 0x95A, 0x95B, 0x95C, 0x95D, 0x95E, 0x95F],
        vowel_suffixes: seq![0x900, 0x901, 0x902, 0x903],
        vowel_signs: seq![0x93A, 0x93B, 0x93C, 0x93D, 0x93E, 0x93F, 0x940, 0x941, 0x942, 0x943, 0x944, 0x945, 0x946, 0x947, 0x948, 0x949, 0x94A, 0x94B, 0x94C, 0x94D, 0x94E, 0x94F],
        reserved: seq![0x970, 0x971, 0x972, 0x973, 0x974, 0x975, 0x976, 0x977, 0x978, 0x979, 0x97A, 0x97B, 0x97C, 0x97D, 0x97E, 0x97F],
        ignored: Seq::empty(),
        digits: seq![0x966, 0x967, 0x968, 0x969, 0x96A, 0x96B, 0x96C, 0x96D, 0x96E, 0x96F],
        virama: 0x94D,
        end_of_text: seq![0x964, 0x965],
        unknown: 0x97F,
    }
}

/// The Telugu tables are well formed.
pub proof fn telugu_is_wf()
    ensures
        telugu().wf(),
{
    let d = telugu().digits;
    assert(d =~= Seq::new(10, |i: int| (0xC66 + i) as u32));
}

/// The Devanagari tables are well formed.
pub proof fn devnagari_is_wf()
    ensures
        devnagari().wf(),
{
    let d = devnagari().digits;
    assert(d =~= Seq::new(10, |i: int| (0x966 + i) as u32));
}

/// Totality: under each configured profile every number, and so every code
/// point of the scalar range, gets exactly one class, which carries the code
/// point itself, or for a digit its ASCII digit.
pub proof fn classification_is_total(c: u32)
    ensures
        telugu().wf(),
        devnagari().wf(),
        telugu().classify(c) is Digit ==> 48 <= telugu().classify(c).value() < 58,
        !(telugu().classify(c) is Digit) ==> telugu().classify(c).value() == c,
        devnagari().classify(c) is Digit ==> 48 <= devnagari().classify(c).value() < 58,
        !(devnagari().classify(c) is Digit) ==> devnagari().classify(c).value() == c,
{
    telugu_is_wf();
    devnagari_is_wf();
    lemma_digit_value(telugu(), c);
    lemma_digit_value(devnagari(), c);
}

/// A digit's class carries an ASCII digit; every other class carries the code point.
pub proof fn lemma_digit_value(p: ScriptProfile, c: u32)
    requires
        p.wf(),
    ensures
        p.classify(c) is Digit ==> 48 <= p.classify(c).value() < 58,
        !(p.classify(c) is Digit) ==> p.classify(c).value() == c,
{
    if p.classify(c) is Digit {
        let i = p.digits.index_of(c);
        assert(0 <= i < p.digits.len());
    }
}

/// The classification tables of one script, as a value.
pub struct Config {
    independent_vowels: Vec<u32>,
    consonants: Vec<u32>,
    vowel_suffixes: Vec<u32>,
    vowel_signs: Vec<u32>,
    reserved: Vec<u32>,
    ignored: Vec<u32>,
    digits: Vec<u32>,
    virama: u32,
    end_of_text: Vec<u32>,
    unknown: u32,
}

impl View for Config {
    type V = ScriptProfile;

    closed spec fn view(&self) -> ScriptProfile {
        ScriptProfile {
            independent_vowels: self.independent_vowels@,
            consonants: self.consonants@,
            vowel_suffixes: self.vowel_suffixes@,
            vowel_signs: self.vowel_signs@,
            reserved: self.reserved@,
            ignored: self.ignored@,
            digits: self.digits@,
            virama: self.virama,
            end_of_text: self.end_of_text@,
            unknown: self.unknown,
        }
    }
}

/// Whether `v` holds `c`.
fn holds(v: &Vec<u32>, c: u32) -> (r: bool)
    ensures
        r == v@.contains(c),
{
    let mut i: usize = 0;
    while i < v.len()
        invariant
            i <= v@.len(),
            forall|j: int| 0 <= j < i ==> v@[j] != c,
        decreases v@.len() - i,
    {
        if v[i] == c {
            assert(v@[i as int] == c);
            return true;
        }
        i = i + 1;
    }
    false
}

impl Config {
    /// The profile of the Telugu script.
    pub fn new_telugu() -> (r: Config)
        ensures
            r@ == telugu(),
            r@.wf(),
    {
        let independent_vowels: Vec<u32> = vec![0xC05, 0xC06, 0xC07, 0xC08, 0xC09, 0xC0A, 0xC0B, 0xC0C, 0xC0E, 0xC0F, 0xC10, 0xC12, 0xC13, 0xC14, 0xC60, 0xC61];
        let consonants: Vec<u32> = vec![0xC15, 0xC16, 0xC17, 0xC18, 0xC19, 0xC1A, 0xC1B, 0xC1C, 0xC1D, 0xC1E, 0xC1F, 0xC20, 0xC21, 0xC22, 0xC23, 0xC24, 0xC25, 0xC26, 0xC27, 0xC28, 0xC2A, 0xC2B, 0xC2C, 0xC2D, 0xC2E, 0xC2F, 0xC30, 0xC31, 0xC32, 0xC33, 0xC34, 0xC35, 0xC36, 0xC37, 0xC38, 0xC39, 0xC58, 0xC59, 0xC5A];
        let vowel_suffixes: Vec<u32> = vec![0xC00, 0xC01, 0xC02, 0xC03, 0xC04];
        let vowel_signs: Vec<u32> = vec![0xC3E, 0xC3F, 0xC40, 0xC41, 0xC42, 0xC43, 0xC44, 0xC46, 0xC47, 0xC48, 0xC4A, 0xC4B, 0xC4C, 0xC62, 0xC63];
        let reserved: Vec<u32> = vec![0xC0D, 0xC11, 0xC29, 0xC3A, 0xC3B, 0xC45, 0xC49, 0xC4E, 0xC4F, 0xC50, 0xC51, 0xC52, 0xC53, 0xC54, 0xC57, 0xC5B, 0xC5C, 0xC5E, 0xC5F, 0xC64, 0xC65, 0xC70, 0xC71, 0xC72, 0xC73, 0xC74, 0xC75, 0xC76];
        let ignored: Vec<u32> = vec![0xC55, 0x5A, 0xC5D, 0xC77, 0xC78, 0xC79, 0xC7A, 0xC7B, 0xC7C, 0xC7D, 0xC7E, 0xC7F];
        let digits: Vec<u32> = vec![0xC66, 0xC67, 0xC68, 0xC69, 0xC6A, 0xC6B, 0xC6C, 0xC6D, 0xC6E, 0xC6F];
        let end_of_text: Vec<u32> = vec![0xC77];
        let r = Config {
            independent_vowels,
            consonants,
            vowel_suffixes,
            vowel_signs,
            reserved,
            ignored,
            digits,
            virama: 0xC4D,
            end_of_text,
            unknown: 0xC7F,
        };
        assert(r@.independent_vowels =~= telugu().independent_vowels);
        assert(r@.consonants =~= telugu().consonants);
        assert(r@.vowel_suffixes =~= telugu().vowel_suffixes);
        assert(r@.vowel_signs =~= telugu().vowel_signs);
        assert(r@.reserved =~= telugu().reserved);
        assert(r@.ignored =~= telugu().ignored);
        assert(r@.digits =~= telugu().digits);
        assert(r@.end_of_text =~= telugu().end_of_text);
        proof {
            telugu_is_wf();
        }
        r
    }

    /// The profile of the Devanagari script.
    pub fn new_devnagari() -> (r: Config)
        ensures
            r@ == devnagari(),
            r@.wf(),
    {
        let independent_vowels: Vec<u32> = vec![0x904, 0x905, 0x906, 0x907, 0x908, 0x909, 0x90A, 0x90B, 0x90C, 0x90D, 0x90E, 0x90F, 0x910, 0x911, 0x912, 0x913, 0x914, 0x950, 0x960, 0x961];
        let consonants: Vec<u32> = vec![0x915, 0x916, 0x917, 0x918, 0x919, 0x91A, 0x91B, 0x91C, 0x91D, 0x91E, 0x91F, 0x920, 0x921, 0x922, 0x923, 0x924, 0x925, 0x926, 0x927, 0x928, 0x929, 0x92A, 0x92B, 0x92C, 0x92D, 0x92E, 0x92F, 0x930, 0x931, 0x932, 0x933, 0x934, 0x935, 0x936, 0x937, 0x938, 0x939, 0x958, 0x959, 0x95A, 0x95B, 0x95C, 0x95D, 0x95E, 0x95F];
        let vowel_suffixes: Vec<u32> = vec![0x900, 0x901, 0x902, 0x903];
        let vowel_signs: Vec<u32> = vec![0x93A, 0x93B, 0x93C, 0x93D, 0x93E, 0x93F, 0x940, 0x941, 0x942, 0x943, 0x944, 0x945, 0x946, 0x947, 0x948, 0x949, 0x94A, 0x94B, 0x94C, 0x94D, 0x94E, 0x94F];
        let reserved: Vec<u32> = vec![0x970, 0x971, 0x972, 0x973, 0x974, 0x975, 0x976, 0x977, 0x978, 0x979, 0x97A, 0x97B, 0x97C, 0x97D, 0x97E, 0x97F];
        let ignored: Vec<u32> = Vec::new();
        let digits: Vec<u32> = vec![0x966, 0x967, 0x968, 0x969, 0x96A, 0x96B, 0x96C, 0x96D, 0x96E, 0x96F];
        let end_of_text: Vec<u32> = vec![0x964, 0x965];
        let r = Config {
            independent_vowels,
            consonants,
            vowel_suffixes,
            vowel_signs,
            reserved,
            ignored,
            digits,
            virama: 0x94D,
            end_of_text,
            unknown: 0x97F,
        };
        assert(r@.independent_vowels =~= devnagari().independent_vowels);
        assert(r@.consonants =~= devnagari().consonants);
        assert(r@.vowel_suffixes =~= devnagari().vowel_suffixes);
        assert(r@.vowel_signs =~= devnagari().vowel_signs);
        assert(r@.reserved =~= devnagari().reserved);
        assert(r@.ignored =~= devnagari().ignored);
        assert(r@.digits =~= devnagari().digits);
        assert(r@.end_of_text =~= devnagari().end_of_text);
        proof {
            devnagari_is_wf();
        }
        r
    }


    /// The code point of the unknown sentinel.
    pub fn unknown(&self) -> (r: u32)
        ensures
            r == self@.unknown,
    {
        self.unknown
    }

    /// The end-of-text markers, in order.
    pub fn end_of_text(&self) -> (r: &Vec<u32>)
        ensures
            r@ == self@.end_of_text,
    {
        &self.end_of_text
    }

    /// The virama of the script.
    pub fn virama(&self) -> (r: u32)
        ensures
            r == self@.virama,
    {
        self.virama
    }

    pub fn is_virama(&self, c: u32) -> (r: bool)
        ensures
            r == (c == self@.virama),
    {
        c == self.virama
    }

    pub fn is_vowel(&self, c: u32) -> (r: bool)
        ensures
            r == self@.independent_vowels.contains(c),
    {
        holds(&self.independent_vowels, c)
    }

    pub fn is_consonant(&self, c: u32) -> (r: bool)
        ensures
            r == self@.consonants.contains(c),
    {
        holds(&self.consonants, c)
    }

    pub fn is_vowel_suffix(&self, c: u32) -> (r: bool)
        ensures
            r == self@.vowel_suffixes.contains(c),
    {
        holds(&self.vowel_suffixes, c)
    }

    pub fn is_reserved(&self, c: u32) -> (r: bool)
        ensures
            r == self@.reserved.contains(c),
    {
        holds(&self.reserved, c)
    }

    pub fn is_ignored(&self, c: u32) -> (r: bool)
        ensures
            r == self@.ignored.contains(c),
    {
        holds(&self.ignored, c)
    }

    /// Whether `c` is a dependent vowel sign or a vowel suffix.
    pub fn is_vowel_symbol(&self, c: u32) -> (r: bool)
        ensures
            r == (self@.vowel_signs.contains(c) || self@.vowel_suffixes.contains(c)),
    {
        holds(&self.vowel_signs, c) || self.is_vowel_suffix(c)
    }

    pub fn is_digit(&self, c: u32) -> (r: bool)
        ensures
            r == self@.digits.contains(c),
    {
        holds(&self.digits, c)
    }

    /// The ASCII digit of a Telugu digit.
    pub fn to_ascii_digit(&self, c: u32) -> (r: u32)
        requires
            self@.digits.contains(c),
            0xC66 <= c <= 0xC6F,
        ensures
            r == c - 0xC66 + 48,
    {
        (c - 0xC66) + 48
    }

    /// Whether `c` separates words: ASCII and the code points just above,
    /// the reserved, ignored and digit tables, general punctuation and the
    /// end-of-text markers.
    pub fn is_separator(&self, c: u32) -> (r: bool)
        ensures
            r == (c < 129 || self@.reserved.contains(c) || self@.ignored.contains(c)
                || self@.digits.contains(c) || (0x2000 <= c <= 0x206F)
                || self@.end_of_text.contains(c)),
    {
        c < 129 || self.is_reserved(c) || self.is_ignored(c) || self.is_digit(c) || (0x2000 <= c
            && c <= 0x206F) || holds(&self.end_of_text, c)
    }

    /// The class of code point `c`.
    #[verifier::loop_isolation(false)]
    pub fn to_symbol_info(&self, c: u32) -> (r: SymbolInfo)
        requires
            self@.wf(),
        ensures
            r == self@.classify(c),
    {
        if self.is_vowel_suffix(c) {
            return SymbolInfo::VowelSuffix(c);
        }
        if self.is_vowel_symbol(c) {
            return SymbolInfo::VowelSign(c);
        }
        if self.is_vowel(c) {
            return SymbolInfo::Vowel(c);
        }
        if self.is_consonant(c) {
            return SymbolInfo::Consonant(c);
        }
        if self.is_virama(c) {
            return SymbolInfo::Virama(c);
        }
        if self.is_ignored(c) {
            return SymbolInfo::Ignored(c);
        }
        let mut ascii_digit: u32 = 48;
        let mut i: usize = 0;
        while i < self.digits.len()
            invariant
                self@.wf(),
                i <= self.digits@.len(),
                ascii_digit == 48 + i,
                forall|j: int| 0 <= j < i ==> self.digits@[j] != c,
            decreases self.digits@.len() - i,
        {
            if self.digits[i] == c {
                proof {
                    let d = self.digits@;
                    assert(d[i as int] == c);
                    let j = d.index_of(c);
                    assert(0 <= j < d.len() && d[j] == c);
                }
                return SymbolInfo::Digit(ascii_digit);
            }
            ascii_digit = ascii_digit + 1;
            i = i + 1;
        }
        if holds(&self.end_of_text, c) {
            return SymbolInfo::EndMarker(c);
        }
        SymbolInfo::OutOfRange(c)
    }
}

} // verus!
