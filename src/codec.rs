use vstd::prelude::*;
use crate::profile::{Config, ScriptProfile, SymbolInfo};
use crate::syllable::{Syllable, SyllableView, all_scalars, chars_of};
use crate::converter::{
    Converter, ConverterView, ConvertError, flush_ok, flushed, values_of, views_of,
};
use crate::vocabulary::{SyllableMapping, VocabularyView};

verus! {

/// A failed step of the segmenter over a text: what failed, the position of
/// the code point in the text, its line and column (from 1), and the code point.
#[derive(Debug, PartialEq, Eq, Structural, Clone, Copy)]
pub struct Diagnostic {
    pub error: ConvertError,
    pub index: usize,
    pub line: usize,
    pub column: usize,
    pub code_point: u32,
}

/// The line and column (from 1) of the code point that follows `prefix`: a
/// code point whose class carries a line feed starts a new line.
pub open spec fn position(p: ScriptProfile, prefix: Seq<u32>) -> (nat, nat)
    decreases prefix.len(),
{
    if prefix.len() == 0 {
        (1, 1)
    } else {
        let (line, column) = position(p, prefix.drop_last());
        if p.classify(prefix.last()).value() == 10 {
            (line + 1, 1)
        } else {
            (line, column + 1)
        }
    }
}

/// The state of the segmenter after a text, with the failures on the way.
pub struct Run {
    pub state: ConverterView,
    pub diagnostics: Seq<Diagnostic>,
}

/// The segmenter fed with each code point of `contents`, classified under `p`.
pub open spec fn run(p: ScriptProfile, contents: Seq<u32>) -> Run
    decreases contents.len(),
{
    if contents.len() == 0 {
        Run {
            state: ConverterView { stack: Seq::empty(), syllables: Seq::empty() },
            diagnostics: Seq::empty(),
        }
    } else {
        let i = contents.len() - 1;
        let prev = run(p, contents.drop_last());
        let (next, outcome) = prev.state.consume(p.classify(contents[i]), p.virama);
        let (line, column) = position(p, contents.drop_last());
        Run {
            state: next,
            diagnostics: match outcome {
                Ok(_) => prev.diagnostics,
                Err(e) => prev.diagnostics.push(
                    Diagnostic {
                        error: e,
                        index: i as usize,
                        line: line as usize,
                        column: column as usize,
                        code_point: contents[i],
                    },
                ),
            },
        }
    }
}

/// The syllables of `contents`: those of the run, then the last flush.
pub open spec fn segmented(p: ScriptProfile, contents: Seq<u32>) -> Seq<SyllableView> {
    run(p, contents).state.flush().syllables
}

/// Whether no step of the run failed, the last flush included.
pub open spec fn segment_ok(p: ScriptProfile, contents: Seq<u32>) -> bool {
    run(p, contents).diagnostics.len() == 0 && flush_ok(run(p, contents).state.stack)
}

/// Lines and columns never pass one more than the length of the prefix.
proof fn lemma_position_bound(p: ScriptProfile, prefix: Seq<u32>)
    ensures
        1 <= position(p, prefix).0 <= prefix.len() + 1,
        1 <= position(p, prefix).1 <= prefix.len() + 1,
    decreases prefix.len(),
{
    if prefix.len() > 0 {
        lemma_position_bound(p, prefix.drop_last());
    }
}

/// Runs the segmenter over `contents` and flushes it at the end; returns the
/// syllables and whether every step succeeded, and appends each failed step
/// to `diagnostics`.
pub fn segment(contents: &[u32], config: &Config, diagnostics: &mut Vec<Diagnostic>) -> (r: (
    Vec<Syllable>,
    bool,
))
    requires
        config@.wf(),
    ensures
        views_of(r.0@) == segmented(config@, contents@),
        r.1 == segment_ok(config@, contents@),
        final(diagnostics)@ == old(diagnostics)@ + run(config@, contents@).diagnostics,
{
    let ghost p = config@;
    let mut converter = Converter::new();
    let mut i: usize = 0;
    let mut line: usize = 1;
    let mut column: usize = 1;
    let mut ok = true;
    assert(contents@.take(0) =~= Seq::<u32>::empty());
    assert(converter@ == run(p, contents@.take(0)).state);
    while i < contents.len()
        invariant
            p == config@,
            config@.wf(),
            i <= contents@.len(),
            converter@ == run(p, contents@.take(i as int)).state,
            diagnostics@ == old(diagnostics)@ + run(p, contents@.take(i as int)).diagnostics,
            ok == (run(p, contents@.take(i as int)).diagnostics.len() == 0),
            i < contents@.len() ==> line == position(p, contents@.take(i as int)).0,
            i < contents@.len() ==> column == position(p, contents@.take(i as int)).1,
        decreases contents@.len() - i,
    {
        let ghost before = run(p, contents@.take(i as int));
        let ghost prefix = contents@.take(i as int);
        assert(contents@.take(i + 1).drop_last() =~= prefix);
        let c = contents[i];
        let symbol_info = config.to_symbol_info(c);
        let outcome = converter.add_code_point(&symbol_info, config.virama());
        if let Err(error) = outcome {
            diagnostics.push(Diagnostic { error, index: i, line, column, code_point: c });
            ok = false;
        }
        assert(diagnostics@ =~= old(diagnostics)@ + run(p, contents@.take(i + 1)).diagnostics);
        if i + 1 < contents.len() {
            proof {
                lemma_position_bound(p, prefix);
            }
            if symbol_info.get_u32() == 0xA {
                line = line + 1;
                column = 1;
            } else {
                column = column + 1;
            }
        }
        i = i + 1;
    }
    assert(contents@.take(i as int) =~= contents@);
    let flushed = converter.finish(config.virama());
    (converter.syllables, ok && flushed)
}

/// Why a sequence of token ids cannot be decoded.
#[derive(Debug, PartialEq, Eq, Structural, Clone, Copy)]
pub enum DecodeError {
    /// The id is beyond the vocabulary.
    UnmappedToken(u32),
    /// The syllable of the id holds a number that is no Unicode scalar value.
    InvalidCodePoint(u32),
}

/// The text that the ids `ids` stand for in vocabulary `v`: the characters of
/// their syllables, in order; the first id that is out of range or whose
/// syllable holds no character stops it.
pub open spec fn decoded(v: VocabularyView, ids: Seq<u32>) -> Result<Seq<char>, DecodeError>
    decreases ids.len(),
{
    if ids.len() == 0 {
        Ok(Seq::empty())
    } else {
        match decoded(v, ids.drop_last()) {
            Err(e) => Err(e),
            Ok(text) => {
                let t = ids.last();
                if t >= v.tokens.len() {
                    Err(DecodeError::UnmappedToken(t))
                } else if !all_scalars(v.tokens[t as int].code_points()) {
                    Err(DecodeError::InvalidCodePoint(t))
                } else {
                    Ok(text + chars_of(v.tokens[t as int].code_points()))
                }
            },
        }
    }
}

/// Once decoding a prefix fails, decoding the whole fails the same way.
proof fn lemma_decoded_err(v: VocabularyView, ids: Seq<u32>, k: int)
    requires
        0 <= k <= ids.len(),
        decoded(v, ids.take(k)) is Err,
    ensures
        decoded(v, ids) == decoded(v, ids.take(k)),
    decreases ids.len(),
{
    if k == ids.len() {
        assert(ids.take(k) =~= ids);
    } else {
        assert(ids.drop_last().take(k) =~= ids.take(k));
        lemma_decoded_err(v, ids.drop_last(), k);
    }
}

/// The tokens of `ss`, one for each syllable.
pub open spec fn codes_of(v: VocabularyView, ss: Seq<SyllableView>, unknown: u32) -> Seq<u32> {
    ss.map_values(|s: SyllableView| v.code_of(s, unknown))
}

/// Whether adding the syllables of `contents` is sure to leave every id in range.
pub open spec fn vocabulary_fits(v: VocabularyView, p: ScriptProfile, contents: Seq<u32>) -> bool {
    v.tokens.len() + segmented(p, contents).len() <= u32::MAX
}

/// Segments `contents` and adds each syllable to `syllabary`, in order;
/// returns whether every step succeeded. Scanning goes on past failures, which
/// are appended to `diagnostics`. When the ids might run out, the vocabulary
/// is left as it is and the result is false.
pub fn collect_vocab(
    contents: &[u32],
    syllabary: &mut SyllableMapping,
    config: &Config,
    diagnostics: &mut Vec<Diagnostic>,
) -> (r: bool)
    requires
        old(syllabary).wf(),
        config@.wf(),
    ensures
        final(syllabary).wf(),
        final(diagnostics)@ == old(diagnostics)@ + run(config@, contents@).diagnostics,
        vocabulary_fits(old(syllabary)@, config@, contents@) ==> final(syllabary)@ == old(syllabary)@.insert_all(segmented(config@, contents@)),
        vocabulary_fits(old(syllabary)@, config@, contents@) ==> r == segment_ok(
            config@,
            contents@,
        ),
        !vocabulary_fits(old(syllabary)@, config@, contents@) ==> final(syllabary)@ == old(syllabary)@ && !r,
{
    let (syllables, ok) = segment(contents, config, diagnostics);
    let ghost ss = segmented(config@, contents@);
    if syllables.len() > u32::MAX as usize || syllabary.len() > u32::MAX as usize - syllables.len() {
        return false;
    }
    let ghost start = syllabary@;
    let mut k: usize = 0;
    assert(ss.take(0) =~= Seq::<SyllableView>::empty());
    while k < syllables.len()
        invariant
            ss == segmented(config@, contents@),
            views_of(syllables@) == ss,
            start.tokens.len() + ss.len() <= u32::MAX,
            syllabary.wf(),
            k <= ss.len(),
            syllabary@ == start.insert_all(ss.take(k as int)),
        decreases ss.len() - k,
    {
        proof {
            crate::vocabulary::lemma_insert_all_len(start, ss.take(k as int));
            assert(ss.take(k + 1).drop_last() =~= ss.take(k as int));
        }
        syllabary.add_syllable(syllables[k].duplicate());
        k = k + 1;
    }
    assert(ss.take(k as int) =~= ss);
    ok
}

/// The tokens of the syllables of `contents`, each its id or, when the
/// vocabulary lacks it, the unknown sentinel's code point; with `insert_eof`,
/// the token of the boundary marker comes first. Failed steps are appended to
/// `diagnostics` and do not stop the scan.
pub fn encode_contents(
    contents: &[u32],
    syllabary: &SyllableMapping,
    config: &Config,
    insert_eof: bool,
    diagnostics: &mut Vec<Diagnostic>,
) -> (r: Vec<u32>)
    requires
        syllabary.wf(),
        config@.wf(),
    ensures
        r@ == (if insert_eof {
            seq![syllabary@.code_of(SyllableView::Meta(config@.boundary_marker()), config@.unknown)]
        } else {
            Seq::empty()
        }) + codes_of(syllabary@, segmented(config@, contents@), config@.unknown),
        final(diagnostics)@ == old(diagnostics)@ + run(config@, contents@).diagnostics,
{
    let mut encoded: Vec<u32> = Vec::new();
    if insert_eof {
        let eot = config.end_of_text();
        let marker = Syllable::Meta(eot[eot.len() - 1]);
        encoded.push(syllabary.syllable_code(&marker, config));
    }
    let ghost head = encoded@;
    let (syllables, _) = segment(contents, config, diagnostics);
    let ghost ss = segmented(config@, contents@);
    let mut k: usize = 0;
    while k < syllables.len()
        invariant
            syllabary.wf(),
            views_of(syllables@) == ss,
            k <= syllables@.len(),
            encoded@ == head + codes_of(syllabary@, ss.take(k as int), config@.unknown),
        decreases syllables@.len() - k,
    {
        let code = syllabary.syllable_code(&syllables[k], config);
        encoded.push(code);
        k = k + 1;
        assert(codes_of(syllabary@, ss.take(k as int), config@.unknown) =~= codes_of(
            syllabary@,
            ss.take(k - 1 as int),
            config@.unknown,
        ).push(code));
    }
    assert(ss.take(k as int) =~= ss);
    encoded
}

/// The text that `encoded` stands for: the characters of the syllables of its
/// ids, in order, with nothing between them.
#[verifier::loop_isolation(false)]
pub fn decode_contents(encoded: &[u32], syllabary: &SyllableMapping, config: &Config) -> (r: Result<
    String,
    DecodeError,
>)
    requires
        syllabary.wf(),
    ensures
        match r {
            Ok(text) => decoded(syllabary@, encoded@) == Ok::<Seq<char>, DecodeError>(text@),
            Err(e) => decoded(syllabary@, encoded@) == Err::<Seq<char>, DecodeError>(e),
        },
{
    let mut text = String::new();
    let mut k: usize = 0;
    assert(encoded@.take(0) =~= Seq::<u32>::empty());
    while k < encoded.len()
        invariant
            syllabary.wf(),
            k <= encoded@.len(),
            decoded(syllabary@, encoded@.take(k as int)) == Ok::<Seq<char>, DecodeError>(text@),
        decreases encoded@.len() - k,
    {
        let token = encoded[k];
        assert(encoded@.take(k + 1).drop_last() =~= encoded@.take(k as int));
        assert(encoded@.take(k + 1).last() == token);
        if token as usize >= syllabary.len() {
            proof {
                lemma_decoded_err(syllabary@, encoded@, k + 1);
            }
            return Err(DecodeError::UnmappedToken(token));
        }
        let syllable = syllabary.syllable_at(token as usize);
        let cps = syllable.code_points();
        let mut j: usize = 0;
        while j < cps.len()
            invariant
                j <= cps@.len(),
                forall|m: int| 0 <= m < j ==> crate::syllable::is_scalar(#[trigger] cps@[m]),
            decreases cps@.len() - j,
        {
            let c = cps[j];
            if !(c <= 0xD7FF || (0xE000 <= c && c <= 0x10FFFF)) {
                proof {
                    lemma_decoded_err(syllabary@, encoded@, k + 1);
                }
                return Err(DecodeError::InvalidCodePoint(token));
            }
            j = j + 1;
        }
        syllable.append_char(&mut text, config);
        k = k + 1;
    }
    assert(encoded@.take(k as int) =~= encoded@);
    Ok(text)
}

/// The code points of the syllables `ss`, one after another.
pub open spec fn flatten(ss: Seq<SyllableView>) -> Seq<u32>
    decreases ss.len(),
{
    if ss.len() == 0 {
        Seq::empty()
    } else {
        flatten(ss.drop_last()) + ss.last().code_points()
    }
}

/// Whether the segmenter keeps `sym`'s code point as it is: neither dropped
/// (ignored) nor replaced by its ASCII digit.
pub open spec fn kept_verbatim(sym: SymbolInfo) -> bool {
    !(sym is Ignored) && !(sym is Digit)
}

proof fn lemma_flatten_concat(a: Seq<SyllableView>, b: Seq<SyllableView>)
    ensures
        flatten(a + b) == flatten(a) + flatten(b),
    decreases b.len(),
{
    if b.len() == 0 {
        assert(a + b =~= a);
        assert(flatten(a) + flatten(b) =~= flatten(a));
    } else {
        assert((a + b).drop_last() =~= a + b.drop_last());
        assert((a + b).last() == b.last());
        lemma_flatten_concat(a, b.drop_last());
        assert(flatten(a + b) =~= flatten(a) + flatten(b));
    }
}

proof fn lemma_flatten_flushed(stack: Seq<SymbolInfo>)
    requires
        flush_ok(stack),
    ensures
        flatten(flushed(stack)) == values_of(stack),
{
    let f = flushed(stack);
    if stack.len() == 0 {
        assert(values_of(stack) =~= Seq::<u32>::empty());
    } else {
        assert(f.drop_last() =~= Seq::<SyllableView>::empty());
        assert(flatten(f.drop_last()) == Seq::<u32>::empty());
        assert(flatten(f) =~= f.last().code_points());
        if stack.len() == 1 {
            assert(values_of(stack) =~= seq![stack[0].value()]);
        }
    }
}

/// Under a well-formed profile every class but a digit carries its code point.
proof fn lemma_classify_value(p: ScriptProfile, c: u32)
    requires
        p.wf(),
        kept_verbatim(p.classify(c)),
    ensures
        p.classify(c).value() == c,
{
}

/// With no failed step and no code point dropped or replaced, the syllables
/// emitted and the open cluster spell the text.
proof fn lemma_run_lossless(p: ScriptProfile, contents: Seq<u32>)
    requires
        p.wf(),
        run(p, contents).diagnostics.len() == 0,
        forall|i: int| 0 <= i < contents.len() ==> kept_verbatim(#[trigger] p.classify(contents[i])),
    ensures
        flatten(run(p, contents).state.syllables) + values_of(run(p, contents).state.stack)
            == contents,
    decreases contents.len(),
{
    if contents.len() == 0 {
        assert(values_of(Seq::<SymbolInfo>::empty()) =~= Seq::<u32>::empty());
        assert(flatten(Seq::<SyllableView>::empty()) + Seq::<u32>::empty() =~= contents);
    } else {
        let init = contents.drop_last();
        let x = contents.last();
        let prev = run(p, init);
        let st = prev.state;
        let sym = p.classify(x);
        let (next, outcome) = st.consume(sym, p.virama);
        assert(kept_verbatim(p.classify(contents[contents.len() - 1])));
        lemma_classify_value(p, x);
        assert(prev.diagnostics.len() == 0);
        assert forall|i: int| 0 <= i < init.len() implies kept_verbatim(
            #[trigger] p.classify(init[i]),
        ) by {
            assert(init[i] == contents[i]);
        };
        lemma_run_lossless(p, init);
        assert(outcome is Ok);
        assert(values_of(st.stack.push(sym)) =~= values_of(st.stack).push(x));
        assert(values_of(seq![sym]) =~= seq![x]);
        assert(values_of(Seq::<SymbolInfo>::empty()) =~= Seq::<u32>::empty());
        assert(init.push(x) =~= contents);
        let head = flatten(st.syllables);
        if next == st.extend(sym) {
            assert(head + values_of(st.stack).push(x) =~= (head + values_of(st.stack)).push(x));
        } else {
            assert(flush_ok(st.stack));
            lemma_flatten_flushed(st.stack);
            lemma_flatten_concat(st.syllables, flushed(st.stack));
            let flushed_all = st.syllables + flushed(st.stack);
            assert(flatten(flushed_all) == init);
            if next == st.reopen(sym) {
                assert(flatten(next.syllables) + values_of(next.stack) =~= init.push(x));
            } else {
                assert(next == st.flush_and_emit(x));
                let emitted = flushed_all.push(SyllableView::Mono(x));
                assert(emitted.drop_last() =~= flushed_all);
                assert(flatten(emitted) =~= init.push(x));
                assert(flatten(next.syllables) + values_of(next.stack) =~= init.push(x));
            }
        }
    }
}

/// Decoding the tokens of syllables that the vocabulary holds spells their
/// code points.
proof fn lemma_decode_codes(v: VocabularyView, ss: Seq<SyllableView>, unknown: u32)
    requires
        v.wf(),
        forall|i: int| 0 <= i < ss.len() ==> v.table.contains_key(#[trigger] ss[i]),
        all_scalars(flatten(ss)),
    ensures
        decoded(v, codes_of(v, ss, unknown)) == Ok::<Seq<char>, DecodeError>(chars_of(flatten(ss))),
    decreases ss.len(),
{
    let codes = codes_of(v, ss, unknown);
    if ss.len() == 0 {
        assert(codes =~= Seq::<u32>::empty());
        assert(chars_of(flatten(ss)) =~= Seq::<char>::empty());
    } else {
        let init = ss.drop_last();
        let s = ss.last();
        let a = flatten(init);
        let b = s.code_points();
        assert(flatten(ss) == a + b);
        assert forall|i: int| 0 <= i < a.len() implies crate::syllable::is_scalar(#[trigger] a[i]) by {
            assert((a + b)[i] == a[i]);
        };
        assert forall|i: int| 0 <= i < b.len() implies crate::syllable::is_scalar(#[trigger] b[i]) by {
            assert((a + b)[a.len() + i] == b[i]);
        };
        assert forall|i: int| 0 <= i < init.len() implies v.table.contains_key(#[trigger] init[i]) by {
            assert(init[i] == ss[i]);
        };
        lemma_decode_codes(v, init, unknown);
        assert(codes.drop_last() =~= codes_of(v, init, unknown));
        assert(v.table.contains_key(ss[ss.len() - 1]));
        assert(codes.last() == v.table[s]);
        assert(chars_of(a + b) =~= chars_of(a) + chars_of(b));
    }
}

/// Closed-vocabulary round trip: when every step of the segmentation
/// succeeds, no code point is ignored or replaced by its ASCII digit, and the
/// vocabulary holds every syllable of the text, decoding the encoding of the
/// text gives the text back.
pub proof fn closed_vocabulary_round_trip(v: VocabularyView, p: ScriptProfile, contents: Seq<u32>)
    requires
        v.wf(),
        p.wf(),
        all_scalars(contents),
        segment_ok(p, contents),
        forall|i: int| 0 <= i < contents.len() ==> kept_verbatim(#[trigger] p.classify(contents[i])),
        forall|i: int|
            0 <= i < segmented(p, contents).len() ==> v.table.contains_key(
                #[trigger] segmented(p, contents)[i],
            ),
    ensures
        decoded(v, codes_of(v, segmented(p, contents), p.unknown)) == Ok::<Seq<char>, DecodeError>(
            chars_of(contents),
        ),
{
    let st = run(p, contents).state;
    lemma_run_lossless(p, contents);
    lemma_flatten_flushed(st.stack);
    lemma_flatten_concat(st.syllables, flushed(st.stack));
    assert(flatten(segmented(p, contents)) == contents);
    lemma_decode_codes(v, segmented(p, contents), p.unknown);
}

} // verus!
