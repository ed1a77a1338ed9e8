use vstd::prelude::*;
use crate::profile::SymbolInfo;
use crate::syllable::{Syllable, SyllableView};

verus! {

/// The longest cluster that one flush turns into a syllable.
pub const MAX_CLUSTER: usize = 8;

/// Why one step of the segmenter failed.
#[derive(Debug, PartialEq, Eq, Structural, Clone, Copy)]
pub enum ConvertError {
    /// The open cluster was longer than `MAX_CLUSTER` when this symbol closed it;
    /// the cluster was dropped.
    ClusterOverflow(SymbolInfo),
    /// A vowel suffix with no open cluster.
    UnexpectedSuffix(u32),
    /// A virama with no open cluster.
    UnexpectedVirama(u32),
}

/// The state of the segmenter: the open cluster and the syllables emitted so far.
pub struct ConverterView {
    pub stack: Seq<SymbolInfo>,
    pub syllables: Seq<SyllableView>,
}

/// The code points that the symbols carry.
pub open spec fn values_of(stack: Seq<SymbolInfo>) -> Seq<u32> {
    stack.map_values(|s: SymbolInfo| s.value())
}

/// What flushing the open cluster `stack` emits: nothing when it is empty or
/// too long, one syllable otherwise.
pub open spec fn flushed(stack: Seq<SymbolInfo>) -> Seq<SyllableView> {
    if stack.len() == 0 {
        Seq::empty()
    } else if stack.len() == 1 {
        seq![SyllableView::Mono(stack[0].value())]
    } else if stack.len() <= MAX_CLUSTER {
        seq![SyllableView::Multi(values_of(stack))]
    } else {
        Seq::empty()
    }
}

/// Whether flushing `stack` succeeds.
pub open spec fn flush_ok(stack: Seq<SymbolInfo>) -> bool {
    stack.len() <= MAX_CLUSTER
}

impl ConverterView {
    /// The state after the open cluster is flushed.
    pub open spec fn flush(self) -> ConverterView {
        ConverterView { stack: Seq::empty(), syllables: self.syllables + flushed(self.stack) }
    }

    /// The state after `sym` is appended to the open cluster.
    pub open spec fn extend(self, sym: SymbolInfo) -> ConverterView {
        ConverterView { stack: self.stack.push(sym), syllables: self.syllables }
    }

    /// The state after the open cluster is flushed and a new one opened with `sym`.
    pub open spec fn reopen(self, sym: SymbolInfo) -> ConverterView {
        ConverterView { stack: seq![sym], syllables: self.flush().syllables }
    }

    /// The state after the open cluster is flushed and `c` emitted on its own.
    pub open spec fn flush_and_emit(self, c: u32) -> ConverterView {
        ConverterView {
            stack: Seq::empty(),
            syllables: self.flush().syllables.push(SyllableView::Mono(c)),
        }
    }

    /// The failure of a flush that `sym` caused, if any.
    pub open spec fn overflow(self, sym: SymbolInfo) -> Result<(), ConvertError> {
        if flush_ok(self.stack) {
            Ok(())
        } else {
            Err(ConvertError::ClusterOverflow(sym))
        }
    }

    /// One step of the segmenter on `sym`: the next state and the outcome.
    pub open spec fn consume(self, sym: SymbolInfo, virama: u32) -> (ConverterView, Result<
        (),
        ConvertError,
    >) {
        match sym {
            SymbolInfo::Consonant(_) => {
                if self.stack.len() == 0 || self.stack.last().value() == virama {
                    (self.extend(sym), Ok(()))
                } else if flush_ok(self.stack) {
                    (self.reopen(sym), Ok(()))
                } else {
                    (self.flush(), self.overflow(sym))
                }
            },
            SymbolInfo::Vowel(_) => {
                if flush_ok(self.stack) {
                    (self.reopen(sym), Ok(()))
                } else {
                    (self.flush(), self.overflow(sym))
                }
            },
            SymbolInfo::VowelSign(_) => (self.extend(sym), Ok(())),
            SymbolInfo::VowelSuffix(v) => {
                if self.stack.len() == 0 {
                    (self, Err(ConvertError::UnexpectedSuffix(v)))
                } else {
                    (self.extend(sym), Ok(()))
                }
            },
            SymbolInfo::Virama(v) => {
                if self.stack.len() == 0 {
                    (self, Err(ConvertError::UnexpectedVirama(v)))
                } else {
                    (self.extend(sym), Ok(()))
                }
            },
            SymbolInfo::Digit(d) => (self.flush_and_emit(d), self.overflow(sym)),
            SymbolInfo::EndMarker(v) => {
                if flush_ok(self.stack) {
                    (self.flush_and_emit(v), Ok(()))
                } else {
                    (self.flush(), self.overflow(sym))
                }
            },
            SymbolInfo::OutOfRange(v) => {
                if flush_ok(self.stack) {
                    (self.flush_and_emit(v), Ok(()))
                } else {
                    (self.flush(), self.overflow(sym))
                }
            },
            SymbolInfo::Ignored(_) => (self, Ok(())),
        }
    }
}

/// Flush determinism: a cluster of one to `MAX_CLUSTER` symbols flushes into
/// exactly one syllable holding their code points in order; a longer one
/// flushes into nothing, fails, and leaves no open cluster.
pub proof fn flush_determinism(st: ConverterView)
    ensures
        1 <= st.stack.len() <= MAX_CLUSTER ==> flush_ok(st.stack) && flushed(st.stack).len() == 1
            && flushed(st.stack)[0].code_points() == values_of(st.stack),
        st.stack.len() > MAX_CLUSTER ==> !flush_ok(st.stack) && flushed(st.stack).len() == 0
            && st.flush().syllables == st.syllables,
        st.flush().stack.len() == 0,
{
    if st.stack.len() == 1 {
        assert(values_of(st.stack) =~= seq![st.stack[0].value()]);
    }
    if st.stack.len() > MAX_CLUSTER {
        assert(st.flush().syllables =~= st.syllables);
    }
}

/// A consonant, a virama, a consonant and a vowel sign, fed to a segmenter
/// with no open cluster and then flushed, make exactly one syllable of the
/// four code points in order, and every step succeeds.
pub proof fn conjunct_with_vowel_sign(k1: u32, virama: u32, k2: u32, sign: u32)
    ensures
        ({
            let st0 = ConverterView { stack: Seq::empty(), syllables: Seq::empty() };
            let (st1, r1) = st0.consume(SymbolInfo::Consonant(k1), virama);
            let (st2, r2) = st1.consume(SymbolInfo::Virama(virama), virama);
            let (st3, r3) = st2.consume(SymbolInfo::Consonant(k2), virama);
            let (st4, r4) = st3.consume(SymbolInfo::VowelSign(sign), virama);
            &&& r1 is Ok && r2 is Ok && r3 is Ok && r4 is Ok
            &&& flush_ok(st4.stack)
            &&& st4.flush().syllables == seq![SyllableView::Multi(seq![k1, virama, k2, sign])]
        }),
{
    let st0 = ConverterView { stack: Seq::empty(), syllables: Seq::empty() };
    let (st1, r1) = st0.consume(SymbolInfo::Consonant(k1), virama);
    let (st2, r2) = st1.consume(SymbolInfo::Virama(virama), virama);
    let (st3, r3) = st2.consume(SymbolInfo::Consonant(k2), virama);
    let (st4, r4) = st3.consume(SymbolInfo::VowelSign(sign), virama);
    assert(st4.stack =~= seq![
        SymbolInfo::Consonant(k1),
        SymbolInfo::Virama(virama),
        SymbolInfo::Consonant(k2),
        SymbolInfo::VowelSign(sign),
    ]);
    assert(values_of(st4.stack) =~= seq![k1, virama, k2, sign]);
    assert(st4.flush().syllables =~= seq![SyllableView::Multi(seq![k1, virama, k2, sign])]);
}

/// The views of the syllables `v`.
pub open spec fn views_of(v: Seq<Syllable>) -> Seq<SyllableView> {
    v.map_values(|s: Syllable| s@)
}

/// The segmenter: a stack machine that groups symbols into syllables.
pub struct Converter {
    /// The open cluster.
    pub stack: Vec<SymbolInfo>,
    /// The syllables emitted so far.
    pub syllables: Vec<Syllable>,
}

impl View for Converter {
    type V = ConverterView;

    open spec fn view(&self) -> ConverterView {
        ConverterView { stack: self.stack@, syllables: views_of(self.syllables@) }
    }
}

impl Converter {
    /// A segmenter with no open cluster and no syllables.
    pub fn new() -> (r: Converter)
        ensures
            r@.stack == Seq::<SymbolInfo>::empty(),
            r@.syllables == Seq::<SyllableView>::empty(),
    {
        let r = Converter { stack: Vec::new(), syllables: Vec::new() };
        assert(r@.syllables =~= Seq::<SyllableView>::empty());
        r
    }

    /// Appends `s` to the emitted syllables.
    fn emit(&mut self, s: Syllable)
        ensures
            final(self)@ == (ConverterView {
                stack: old(self)@.stack,
                syllables: old(self)@.syllables.push(s@),
            }),
    {
        self.syllables.push(s);
        assert(views_of(self.syllables@) =~= views_of(old(self).syllables@).push(s@));
    }

    /// Flushes the open cluster: emits it as one syllable when it holds one
    /// to `MAX_CLUSTER` symbols, drops it and fails when it holds more.
    pub fn clear_stack(&mut self) -> (r: bool)
        ensures
            final(self)@ == old(self)@.flush(),
            r == flush_ok(old(self)@.stack),
    {
        if self.stack.len() == 0 {
            assert(old(self)@.flush().syllables =~= old(self)@.syllables);
            assert(self@.stack =~= Seq::<SymbolInfo>::empty());
            return true;
        }
        if self.stack.len() == 1 {
            let top = self.stack[0].get_u32();
            self.stack = Vec::new();
            self.emit(Syllable::Mono(top));
            assert(self@.stack =~= Seq::<SymbolInfo>::empty());
            assert(self@.syllables =~= old(self)@.flush().syllables);
            return true;
        }
        if self.stack.len() <= MAX_CLUSTER {
            let mut v: Vec<u32> = Vec::new();
            let mut i: usize = 0;
            while i < self.stack.len()
                invariant
                    i <= self.stack@.len(),
                    v@ == values_of(self.stack@.subrange(0, i as int)),
                decreases self.stack@.len() - i,
            {
                v.push(self.stack[i].get_u32());
                i = i + 1;
                assert(v@ =~= values_of(self.stack@.subrange(0, i as int)));
            }
            assert(self.stack@.subrange(0, self.stack@.len() as int) =~= self.stack@);
            self.stack = Vec::new();
            self.emit(Syllable::Multi(v));
            assert(self@.stack =~= Seq::<SymbolInfo>::empty());
            assert(self@.syllables =~= old(self)@.flush().syllables);
            return true;
        }
        self.stack = Vec::new();
        assert(self@.stack =~= Seq::<SymbolInfo>::empty());
        assert(self@.syllables =~= old(self)@.flush().syllables);
        false
    }

    /// Ends the input: flushes the open cluster, and tells whether that succeeded.
    pub fn finish(&mut self, virama: u32) -> (r: bool)
        ensures
            final(self)@ == old(self)@.flush(),
            r == flush_ok(old(self)@.stack),
    {
        self.clear_stack()
    }

    /// Feeds one symbol to the segmenter; `virama` is the code point after
    /// which a consonant continues the open cluster.
    pub fn add_code_point(&mut self, symbol: &SymbolInfo, virama: u32) -> (r: Result<
        (),
        ConvertError,
    >)
        ensures
            (final(self)@, r) == old(self)@.consume(*symbol, virama),
    {
        let sym = *symbol;
        match sym {
            SymbolInfo::Consonant(_) => {
                if self.stack.len() == 0 || self.stack[self.stack.len() - 1].get_u32() == virama {
                    self.stack.push(sym);
                    Ok(())
                } else if self.clear_stack() {
                    self.stack.push(sym);
                    assert(self@.stack =~= seq![sym]);
                    Ok(())
                } else {
                    Err(ConvertError::ClusterOverflow(sym))
                }
            },
            SymbolInfo::Vowel(_) => {
                if self.clear_stack() {
                    self.stack.push(sym);
                    assert(self@.stack =~= seq![sym]);
                    Ok(())
                } else {
                    Err(ConvertError::ClusterOverflow(sym))
                }
            },
            SymbolInfo::VowelSign(_) => {
                self.stack.push(sym);
                Ok(())
            },
            SymbolInfo::VowelSuffix(v) => {
                if self.stack.len() == 0 {
                    return Err(ConvertError::UnexpectedSuffix(v));
                }
                self.stack.push(sym);
                Ok(())
            },
            SymbolInfo::Virama(v) => {
                if self.stack.len() == 0 {
                    return Err(ConvertError::UnexpectedVirama(v));
                }
                self.stack.push(sym);
                Ok(())
            },
            SymbolInfo::Digit(d) => {
                let flushed = self.clear_stack();
                self.emit(Syllable::Mono(d));
                if flushed {
                    Ok(())
                } else {
                    Err(ConvertError::ClusterOverflow(sym))
                }
            },
            SymbolInfo::EndMarker(v) => {
                if self.clear_stack() {
                    self.emit(Syllable::Mono(v));
                    Ok(())
                } else {
                    Err(ConvertError::ClusterOverflow(sym))
                }
            },
            SymbolInfo::OutOfRange(v) => {
                if self.clear_stack() {
                    self.emit(Syllable::Mono(v));
                    Ok(())
                } else {
                    Err(ConvertError::ClusterOverflow(sym))
                }
            },
            SymbolInfo::Ignored(_) => Ok(()),
        }
    }
}

} // verus!
