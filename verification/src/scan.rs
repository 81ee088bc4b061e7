//! The placeholder scanner: a single left-to-right pass over a route
//! declaration that separates `<name:regex>` placeholders into an ordered
//! list of parameter names and a raw pattern buffer. `<` enters name mode,
//! `:` records the accumulated name and switches to regex mode, `>` returns
//! to plain scanning; every other character goes to the name buffer or to
//! the pattern buffer, depending on the mode.

use vstd::prelude::*;
use crate::text::{chars_to_string, str_to_chars};

verus! {

/// The scanner's current mode.
pub enum Mode {
    /// Accumulating a parameter name, between `<` and `:`.
    Id,
    /// Copying a regex fragment, between `:` and `>`.
    Regex,
    /// Copying literal pattern text, outside a placeholder.
    Look,
}

/// The full scanner state after some prefix of the declaration.
pub ghost struct ScanState {
    /// Current mode.
    pub mode: Mode,
    /// The parameter name accumulated so far, not yet recorded.
    pub id: Seq<char>,
    /// The parameter names recorded so far, in order.
    pub ids: Seq<Seq<char>>,
    /// The pattern text copied so far.
    pub pattern: Seq<char>,
}

/// The state before any character is read.
pub open spec fn scan_init() -> ScanState {
    ScanState { mode: Mode::Look, id: Seq::empty(), ids: Seq::empty(), pattern: Seq::empty() }
}

/// One scanner step.
pub open spec fn scan_step(st: ScanState, c: char) -> ScanState {
    if c == '<' {
        ScanState { mode: Mode::Id, id: st.id, ids: st.ids, pattern: st.pattern }
    } else if c == ':' {
        ScanState { mode: Mode::Regex, id: Seq::empty(), ids: st.ids.push(st.id), pattern: st.pattern }
    } else if c == '>' {
        ScanState { mode: Mode::Look, id: st.id, ids: st.ids, pattern: st.pattern }
    } else {
        match st.mode {
            Mode::Id => ScanState {
                mode: st.mode,
                id: st.id.push(c),
                ids: st.ids,
                pattern: st.pattern,
            },
            _ => ScanState { mode: st.mode, id: st.id, ids: st.ids, pattern: st.pattern.push(c) },
        }
    }
}

/// The scanner run over a sequence, starting from a given state.
pub open spec fn scan_from(st: ScanState, s: Seq<char>) -> ScanState
    decreases s.len(),
{
    if s.len() == 0 {
        st
    } else {
        scan_from(scan_step(st, s[0]), s.drop_first())
    }
}

/// The scanner run over a whole declaration.
pub open spec fn scan(s: Seq<char>) -> ScanState {
    scan_from(scan_init(), s)
}

/// The parameter names of a declaration, in order.
pub open spec fn scan_ids(s: Seq<char>) -> Seq<Seq<char>> {
    scan(s).ids
}

/// The raw pattern text of a declaration, before normalization.
pub open spec fn scan_pattern(s: Seq<char>) -> Seq<char> {
    scan(s).pattern
}

/// A declaration is settled when it leaves the scanner outside a
/// placeholder, with no half-accumulated name: every declaration whose
/// placeholders are all complete is settled.
pub open spec fn scan_settled(s: Seq<char>) -> bool {
    scan(s).mode is Look && scan(s).id == Seq::<char>::empty()
}

/// Scanning distributes over concatenation of the input.
pub proof fn lemma_scan_from_concat(st: ScanState, s1: Seq<char>, s2: Seq<char>)
    ensures
        scan_from(st, s1 + s2) == scan_from(scan_from(st, s1), s2),
    decreases s1.len(),
{
    if s1.len() == 0 {
        assert(s1 + s2 =~= s2);
    } else {
        assert((s1 + s2).drop_first() =~= s1.drop_first() + s2);
        assert((s1 + s2)[0] == s1[0]);
        lemma_scan_from_concat(scan_step(st, s1[0]), s1.drop_first(), s2);
    }
}

/// A start state that differs only by names and pattern text already
/// recorded shifts the whole run by those prefixes.
pub proof fn lemma_scan_from_shift(
    st: ScanState,
    ids0: Seq<Seq<char>>,
    pat0: Seq<char>,
    s: Seq<char>,
)
    ensures
        scan_from(
            (ScanState { mode: st.mode, id: st.id, ids: ids0 + st.ids, pattern: pat0 + st.pattern }),
            s,
        ) == (ScanState {
            mode: scan_from(st, s).mode,
            id: scan_from(st, s).id,
            ids: ids0 + scan_from(st, s).ids,
            pattern: pat0 + scan_from(st, s).pattern,
        }),
    decreases s.len(),
{
    let shifted = ScanState {
        mode: st.mode,
        id: st.id,
        ids: ids0 + st.ids,
        pattern: pat0 + st.pattern,
    };
    if s.len() == 0 {
    } else {
        let c = s[0];
        let st2 = scan_step(st, c);
        let shifted2 = ScanState {
            mode: st2.mode,
            id: st2.id,
            ids: ids0 + st2.ids,
            pattern: pat0 + st2.pattern,
        };
        assert(scan_step(shifted, c) == shifted2) by {
            if c == ':' {
                assert((ids0 + st.ids).push(st.id) =~= ids0 + st.ids.push(st.id));
            } else if c != '<' && c != '>' && !(st.mode is Id) {
                assert((pat0 + st.pattern).push(c) =~= pat0 + st.pattern.push(c));
            }
        }
        lemma_scan_from_shift(st2, ids0, pat0, s.drop_first());
    }
}

/// Appending to a settled declaration appends names and pattern text: the
/// names of the whole are the names of the parts in order, and likewise the
/// pattern text.
pub proof fn lemma_scan_concat_settled(s1: Seq<char>, s2: Seq<char>)
    requires
        scan_settled(s1),
    ensures
        scan_ids(s1 + s2) =~= scan_ids(s1) + scan_ids(s2),
        scan_pattern(s1 + s2) =~= scan_pattern(s1) + scan_pattern(s2),
{
    lemma_scan_from_concat(scan_init(), s1, s2);
    let st1 = scan(s1);
    assert(st1 == ScanState {
        mode: scan_init().mode,
        id: scan_init().id,
        ids: st1.ids + scan_init().ids,
        pattern: st1.pattern + scan_init().pattern,
    }) by {
        assert(st1.ids + Seq::<Seq<char>>::empty() =~= st1.ids);
        assert(st1.pattern + Seq::<char>::empty() =~= st1.pattern);
    }
    lemma_scan_from_shift(scan_init(), st1.ids, st1.pattern, s2);
}

/// One scanner step, executably.
fn step(
    mode: Mode,
    c: char,
    id: &mut Vec<char>,
    ids: &mut Vec<String>,
    pattern: &mut Vec<char>,
) -> (m: Mode)
    ensures
        ({
            let st = scan_step(
                ScanState {
                    mode,
                    id: old(id)@,
                    ids: old(ids).deep_view(),
                    pattern: old(pattern)@,
                },
                c,
            );
            m == st.mode && final(id)@ == st.id && final(ids).deep_view() == st.ids
                && final(pattern)@ == st.pattern
        }),
{
    if c == '<' {
        Mode::Id
    } else if c == ':' {
        let name = chars_to_string(id);
        ids.push(name);
        id.clear();
        proof {
            assert(final(ids).deep_view() =~= old(ids).deep_view().push(old(id)@));
        }
        Mode::Regex
    } else if c == '>' {
        Mode::Look
    } else {
        match mode {
            Mode::Id => {
                id.push(c);
                Mode::Id
            },
            Mode::Regex => {
                pattern.push(c);
                Mode::Regex
            },
            Mode::Look => {
                pattern.push(c);
                Mode::Look
            },
        }
    }
}

/// Runs the scanner over a declaration: the ordered parameter names and the
/// raw pattern buffer.
pub fn read(decl: &str) -> (r: (Vec<String>, Vec<char>))
    ensures
        r.0.deep_view() == scan_ids(decl@),
        r.1@ == scan_pattern(decl@),
{
    let chars = str_to_chars(decl);
    let n = chars.len();
    let mut mode = Mode::Look;
    let mut id: Vec<char> = Vec::new();
    let mut ids: Vec<String> = Vec::new();
    let mut pattern: Vec<char> = Vec::new();
    let mut i: usize = 0;
    proof {
        assert(ids.deep_view() =~= Seq::<Seq<char>>::empty());
        assert(chars@.take(0) =~= Seq::<char>::empty());
    }
    while i < n
        invariant
            i <= n,
            n == chars@.len(),
            chars@ == decl@,
            ({
                let st = scan(decl@.take(i as int));
                mode == st.mode && id@ == st.id && ids.deep_view() == st.ids && pattern@
                    == st.pattern
            }),
        decreases n - i,
    {
        let ghost prefix = decl@.take(i as int);
        let c = chars[i];
        proof {
            assert(decl@.take(i + 1) =~= prefix + seq![c]);
            lemma_scan_from_concat(scan_init(), prefix, seq![c]);
            let st0 = scan(prefix);
            let st1 = scan_step(st0, c);
            assert(seq![c].drop_first() =~= Seq::<char>::empty());
            assert(seq![c][0] == c);
            assert(scan_from(st1, Seq::<char>::empty()) == st1);
            assert(scan_from(st0, seq![c]) == scan_from(st1, seq![c].drop_first()));
        }
        mode = step(mode, c, &mut id, &mut ids, &mut pattern);
        i = i + 1;
    }
    proof {
        assert(decl@.take(n as int) =~= decl@);
    }
    (ids, pattern)
}

} // verus!
