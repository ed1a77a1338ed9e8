use vstd::prelude::*;

verus! {

/// Relies on `String::push`: the character is appended at the end.
pub assume_specification[ String::push ](s: &mut String, ch: char)
    ensures
        final(s)@ == old(s)@.push(ch),
;

/// Relies on `char::from_u32`: it gives the character of a Unicode scalar value,
/// and nothing for any other number.
pub assume_specification[ char::from_u32 ](i: u32) -> (r: Option<char>)
    ensures
        is_scalar(i) ==> r == Some(i as char),
        !is_scalar(i) ==> r is None,
;

/// True when `c` is a Unicode scalar value, that is a value that a `char` can hold.
pub open spec fn is_scalar(c: u32) -> bool {
    c <= 0xD7FF || (0xE000 <= c && c <= 0x10FFFF)
}

/// True when every value of `cps` is a Unicode scalar value.
pub open spec fn all_scalars(cps: Seq<u32>) -> bool {
    forall|i: int| 0 <= i < cps.len() ==> is_scalar(#[trigger] cps[i])
}

/// The characters that the scalar values `cps` stand for.
pub open spec fn chars_of(cps: Seq<u32>) -> Seq<char> {
    cps.map_values(|c: u32| c as char)
}

/// The mathematical form of a syllable.
pub enum SyllableView {
    Mono(u32),
    Multi(Seq<u32>),
    Meta(u32),
}

impl SyllableView {
    /// The code points of the syllable, in order.
    pub open spec fn code_points(self) -> Seq<u32> {
        match self {
            SyllableView::Mono(c) => seq![c],
            SyllableView::Multi(v) => v,
            SyllableView::Meta(c) => seq![c],
        }
    }
}

/// A unit of the vocabulary: one code point, a cluster of code points, or a
/// control token (the unknown sentinel, an end-of-text marker).
#[derive(Debug, Clone)]
pub enum Syllable {
    Mono(u32),
    Multi(Vec<u32>),
    Meta(u32),
}

impl View for Syllable {
    type V = SyllableView;

    open spec fn view(&self) -> SyllableView {
        match self {
            Syllable::Mono(c) => SyllableView::Mono(*c),
            Syllable::Multi(v) => SyllableView::Multi(v@),
            Syllable::Meta(c) => SyllableView::Meta(*c),
        }
    }
}

fn same_code_points(a: &Vec<u32>, b: &Vec<u32>) -> (r: bool)
    ensures
        r == (a@ == b@),
{
    if a.len() != b.len() {
        return false;
    }
    let mut i: usize = 0;
    while i < a.len()
        invariant
            a@.len() == b@.len(),
            i <= a@.len(),
            forall|j: int| 0 <= j < i ==> a@[j] == b@[j],
        decreases a@.len() - i,
    {
        if a[i] != b[i] {
            return false;
        }
        i = i + 1;
    }
    assert(a@ =~= b@);
    true
}

fn copy_code_points(a: &Vec<u32>) -> (r: Vec<u32>)
    ensures
        r@ == a@,
{
    let mut r: Vec<u32> = Vec::new();
    let mut i: usize = 0;
    while i < a.len()
        invariant
            i <= a@.len(),
            r@ == a@.subrange(0, i as int),
        decreases a@.len() - i,
    {
        r.push(a[i]);
        i = i + 1;
        assert(r@ =~= a@.subrange(0, i as int));
    }
    assert(a@.subrange(0, a@.len() as int) =~= a@);
    r
}

impl PartialEq for Syllable {
    fn eq(&self, other: &Syllable) -> (r: bool) {
        match (self, other) {
            (Syllable::Mono(a), Syllable::Mono(b)) => *a == *b,
            (Syllable::Meta(a), Syllable::Meta(b)) => *a == *b,
            (Syllable::Multi(a), Syllable::Multi(b)) => same_code_points(a, b),
            _ => false,
        }
    }
}

impl vstd::std_specs::cmp::PartialEqSpecImpl for Syllable {
    open spec fn obeys_eq_spec() -> bool {
        true
    }

    open spec fn eq_spec(&self, other: &Syllable) -> bool {
        self@ == other@
    }
}

impl Eq for Syllable {
}

impl Syllable {
    /// A copy of the syllable.
    pub fn duplicate(&self) -> (r: Syllable)
        ensures
            r@ == self@,
    {
        match self {
            Syllable::Mono(c) => Syllable::Mono(*c),
            Syllable::Multi(v) => Syllable::Multi(copy_code_points(v)),
            Syllable::Meta(c) => Syllable::Meta(*c),
        }
    }

    /// The code points of the syllable, in order.
    pub fn code_points(&self) -> (r: Vec<u32>)
        ensures
            r@ == self@.code_points(),
    {
        match self {
            Syllable::Mono(c) => vec![*c],
            Syllable::Multi(v) => copy_code_points(v),
            Syllable::Meta(c) => vec![*c],
        }
    }

    /// Appends the characters of the syllable to `text`.
    pub fn append_char(&self, text: &mut String, config: &crate::profile::Config)
        requires
            all_scalars(self@.code_points()),
        ensures
            final(text)@ == old(text)@ + chars_of(self@.code_points()),
    {
        let cps = self.code_points();
        let mut i: usize = 0;
        while i < cps.len()
            invariant
                i <= cps@.len(),
                cps@ == self@.code_points(),
                all_scalars(cps@),
                text@ == old(text)@ + chars_of(cps@.subrange(0, i as int)),
            decreases cps@.len() - i,
        {
            let c = cps[i];
            assert(is_scalar(cps@[i as int]));
            if let Some(ch) = char::from_u32(c) {
                text.push(ch);
            }
            i = i + 1;
            assert(chars_of(cps@.subrange(0, i as int)) =~= chars_of(
                cps@.subrange(0, i - 1 as int),
            ).push(c as char));
        }
        assert(cps@.subrange(0, cps@.len() as int) =~= cps@);
    }
}

} // verus!
