//! Pattern normalization: the scanned pattern buffer is trimmed of
//! surrounding white space, loses one leading `^`, one trailing `$` and one
//! trailing `/` if present, and is then re-anchored as `^...{/?}$` so that
//! every route matches an optional trailing slash. An empty buffer becomes
//! `^/$`, the root-only pattern.

use vstd::prelude::*;
use crate::text::{is_space, space};

verus! {

/// The sequence without its leading white space.
pub open spec fn trim_front(s: Seq<char>) -> Seq<char>
    decreases s.len(),
{
    if s.len() > 0 && is_space(s[0]) {
        trim_front(s.drop_first())
    } else {
        s
    }
}

/// The sequence without its trailing white space.
pub open spec fn trim_back(s: Seq<char>) -> Seq<char>
    decreases s.len(),
{
    if s.len() > 0 && is_space(s.last()) {
        trim_back(s.drop_last())
    } else {
        s
    }
}

/// The sequence without one leading occurrence of the character.
pub open spec fn chop_front(s: Seq<char>, c: char) -> Seq<char> {
    if s.len() > 0 && s[0] == c {
        s.drop_first()
    } else {
        s
    }
}

/// The sequence without one trailing occurrence of the character.
pub open spec fn chop_back(s: Seq<char>, c: char) -> Seq<char> {
    if s.len() > 0 && s.last() == c {
        s.drop_last()
    } else {
        s
    }
}

/// The stripped core of a pattern buffer: trimmed, without its optional
/// anchors and optional trailing slash.
pub open spec fn stripped(s: Seq<char>) -> Seq<char> {
    chop_back(chop_back(chop_front(trim_back(trim_front(s)), '^'), '$'), '/')
}

/// The normalized, anchored pattern of a raw pattern buffer.
pub open spec fn normalized(s: Seq<char>) -> Seq<char> {
    let core = stripped(s);
    if core.len() == 0 {
        seq!['^', '/', '$']
    } else {
        seq!['^'] + core + seq!['/', '?', '$']
    }
}

/// Normalizes a scanned pattern buffer.
#[verifier::rlimit(50)]
pub fn normalize(p: &Vec<char>) -> (r: Vec<char>)
    ensures
        r@ == normalized(p@),
{
    let mut start: usize = 0;
    let mut end: usize = p.len();
    proof {
        assert(p@.subrange(0, p@.len() as int) =~= p@);
    }
    while start < end && space(p[start])
        invariant
            0 <= start <= end <= p@.len(),
            trim_front(p@) == trim_front(p@.subrange(start as int, end as int)),
            end == p@.len(),
        decreases end - start,
    {
        proof {
            let cur = p@.subrange(start as int, end as int);
            assert(cur.drop_first() =~= p@.subrange(start + 1, end as int));
        }
        start = start + 1;
    }
    proof {
        let cur = p@.subrange(start as int, end as int);
        assert(trim_front(cur) == cur);
    }
    while start < end && space(p[end - 1])
        invariant
            0 <= start <= end <= p@.len(),
            trim_front(p@) == p@.subrange(start as int, p@.len() as int),
            trim_back(trim_front(p@)) == trim_back(p@.subrange(start as int, end as int)),
            trim_front(p@.subrange(start as int, end as int)) == p@.subrange(
                start as int,
                end as int,
            ),
        decreases end - start,
    {
        proof {
            let cur = p@.subrange(start as int, end as int);
            let shorter = p@.subrange(start as int, end - 1);
            assert(cur.drop_last() =~= shorter);
            assert(shorter.len() > 0 ==> shorter[0] == cur[0]);
            assert(trim_front(shorter) == shorter) by {
                lemma_trim_front_fixed(cur);
                if shorter.len() > 0 {
                    assert(shorter[0] == cur[0]);
                    assert(!is_space(shorter[0]));
                }
            }
        }
        end = end - 1;
    }
    let ghost trimmed = trim_back(trim_front(p@));
    proof {
        let cur = p@.subrange(start as int, end as int);
        assert(trim_back(cur) == cur);
        assert(trimmed == cur);
    }
    // one leading '^'
    if start < end && p[start] == '^' {
        proof {
            let cur = p@.subrange(start as int, end as int);
            assert(chop_front(cur, '^') =~= p@.subrange(start + 1, end as int));
        }
        start = start + 1;
    }
    let ghost unanchored = chop_front(trimmed, '^');
    proof {
        assert(unanchored == p@.subrange(start as int, end as int));
    }
    // one trailing '$'
    if start < end && p[end - 1] == '$' {
        proof {
            let cur = p@.subrange(start as int, end as int);
            assert(chop_back(cur, '$') =~= p@.subrange(start as int, end - 1));
        }
        end = end - 1;
    }
    let ghost undollared = chop_back(unanchored, '$');
    proof {
        assert(undollared == p@.subrange(start as int, end as int));
    }
    // one trailing '/'
    if start < end && p[end - 1] == '/' {
        proof {
            let cur = p@.subrange(start as int, end as int);
            assert(chop_back(cur, '/') =~= p@.subrange(start as int, end - 1));
        }
        end = end - 1;
    }
    proof {
        assert(stripped(p@) == p@.subrange(start as int, end as int));
    }
    let mut r: Vec<char> = Vec::new();
    if start == end {
        r.push('^');
        r.push('/');
        r.push('$');
        proof {
            assert(r@ =~= normalized(p@));
        }
        r
    } else {
        r.push('^');
        let mut i: usize = start;
        while i < end
            invariant
                start <= i <= end <= p@.len(),
                r@ == seq!['^'] + p@.subrange(start as int, i as int),
            decreases end - i,
        {
            r.push(p[i]);
            i = i + 1;
            proof {
                assert(r@ =~= seq!['^'] + p@.subrange(start as int, i as int));
            }
        }
        r.push('/');
        r.push('?');
        r.push('$');
        proof {
            assert(r@ =~= normalized(p@));
        }
        r
    }
}

/// A text is clean when it is already trimmed and carries neither a leading
/// `^` anchor, a trailing `$` anchor, nor a trailing slash.
pub open spec fn clean(s: Seq<char>) -> bool {
    &&& trim_front(s) == s
    &&& trim_back(s) == s
    &&& (s.len() > 0 ==> s[0] != '^' && s.last() != '$' && s.last() != '/')
}

/// Normalization ignores the optional decorations: a clean declaration, the
/// same declaration with a trailing slash, with a trailing `$`, or with both
/// anchors, all normalize to one and the same anchored pattern.
pub proof fn lemma_normalize_decorations(s: Seq<char>)
    requires
        clean(s),
    ensures
        normalized(s + seq!['/']) == normalized(s),
        normalized(s + seq!['$']) == normalized(s),
        normalized(seq!['^'] + s + seq!['$']) == normalized(s),
        normalized(seq!['^'] + s) == normalized(s),
{
    assert(stripped(s) == s);
    lemma_stripped_slash(s);
    lemma_stripped_dollar(s);
    lemma_stripped_anchors(s);
    lemma_stripped_caret(s);
}

proof fn lemma_trim_front_fixed(s: Seq<char>)
    requires
        trim_front(s) == s,
    ensures
        s.len() > 0 ==> !is_space(s[0]),
{
    if s.len() > 0 && is_space(s[0]) {
        assert(trim_front(s) == trim_front(s.drop_first()));
        lemma_trim_front_shortens(s.drop_first());
    }
}

proof fn lemma_not_space_trims(s: Seq<char>)
    requires
        trim_front(s) == s,
        trim_back(s) == s,
    ensures
        s.len() > 0 ==> !is_space(s[0]) && !is_space(s.last()),
{
    lemma_trim_front_fixed(s);
    if s.len() > 0 {
        if is_space(s.last()) {
            assert(trim_back(s) == trim_back(s.drop_last()));
            lemma_trim_back_shortens(s.drop_last());
        }
    }
}

proof fn lemma_trim_front_shortens(s: Seq<char>)
    ensures
        trim_front(s).len() <= s.len(),
    decreases s.len(),
{
    if s.len() > 0 && is_space(s[0]) {
        lemma_trim_front_shortens(s.drop_first());
    }
}

proof fn lemma_trim_back_shortens(s: Seq<char>)
    ensures
        trim_back(s).len() <= s.len(),
    decreases s.len(),
{
    if s.len() > 0 && is_space(s.last()) {
        lemma_trim_back_shortens(s.drop_last());
    }
}

proof fn lemma_trims_of_clean_extended(s: Seq<char>, c: char)
    requires
        clean(s),
        !is_space(c),
        c != '^',
    ensures
        trim_back(trim_front(s + seq![c])) == s + seq![c],
        chop_front(s + seq![c], '^') == s + seq![c],
{
    let e = s + seq![c];
    lemma_not_space_trims(s);
    assert(e.len() > 0);
    assert(e[0] == if s.len() > 0 {
        s[0]
    } else {
        c
    });
    assert(!is_space(e[0]));
    assert(trim_front(e) == e);
    assert(e.last() == c);
    assert(trim_back(e) == e);
    assert(e[0] != '^');
}

proof fn lemma_stripped_slash(s: Seq<char>)
    requires
        clean(s),
    ensures
        stripped(s + seq!['/']) == s,
        normalized(s + seq!['/']) == normalized(s),
{
    let e = s + seq!['/'];
    lemma_trims_of_clean_extended(s, '/');
    assert(e.last() == '/');
    assert(e.last() != '$');
    assert(chop_back(e, '$') == e);
    assert(chop_back(e, '/') =~= s);
    assert(stripped(e) == s);
    assert(stripped(s) == s);
}

proof fn lemma_stripped_dollar(s: Seq<char>)
    requires
        clean(s),
    ensures
        stripped(s + seq!['$']) == s,
        normalized(s + seq!['$']) == normalized(s),
{
    let e = s + seq!['$'];
    lemma_trims_of_clean_extended(s, '$');
    assert(e.last() == '$');
    assert(chop_back(e, '$') =~= s);
    assert(s.len() > 0 ==> s.last() != '/');
    assert(chop_back(s, '/') == s);
    assert(stripped(e) == s);
    assert(stripped(s) == s);
}

proof fn lemma_caret_front(s: Seq<char>)
    requires
        clean(s),
    ensures
        trim_front(seq!['^'] + s) == seq!['^'] + s,
        chop_front(seq!['^'] + s, '^') =~= s,
{
    let e = seq!['^'] + s;
    assert(e[0] == '^');
    assert(!is_space('^'));
    assert(trim_front(e) == e);
    assert(chop_front(e, '^') =~= s);
}

proof fn lemma_stripped_caret(s: Seq<char>)
    requires
        clean(s),
    ensures
        stripped(seq!['^'] + s) == s,
        normalized(seq!['^'] + s) == normalized(s),
{
    let e = seq!['^'] + s;
    lemma_caret_front(s);
    lemma_not_space_trims(s);
    assert(e.last() == if s.len() > 0 {
        s.last()
    } else {
        '^'
    });
    assert(!is_space(e.last()));
    assert(trim_back(e) == e);
    assert(s.len() > 0 ==> s.last() != '$' && s.last() != '/');
    assert(chop_back(s, '$') == s);
    assert(chop_back(s, '/') == s);
    assert(stripped(e) == s);
    assert(stripped(s) == s);
}

proof fn lemma_stripped_anchors(s: Seq<char>)
    requires
        clean(s),
    ensures
        stripped(seq!['^'] + s + seq!['$']) == s,
        normalized(seq!['^'] + s + seq!['$']) == normalized(s),
{
    let e = seq!['^'] + s + seq!['$'];
    lemma_not_space_trims(s);
    assert(e[0] == '^');
    assert(trim_front(e) == e);
    assert(e.last() == '$');
    assert(trim_back(e) == e);
    assert(chop_front(e, '^') =~= s + seq!['$']);
    assert((s + seq!['$']).last() == '$');
    assert(chop_back(s + seq!['$'], '$') =~= s);
    assert(s.len() > 0 ==> s.last() != '/');
    assert(chop_back(s, '/') == s);
    assert(stripped(e) == s);
    assert(stripped(s) == s);
}

/// The empty declaration and the bare slash both normalize to the root-only
/// pattern `^/$`.
pub proof fn lemma_normalize_root()
    ensures
        normalized(Seq::<char>::empty()) == seq!['^', '/', '$'],
        normalized(seq!['/']) == seq!['^', '/', '$'],
{
    let empty = Seq::<char>::empty();
    assert(trim_front(empty) == empty);
    assert(trim_back(empty) == empty);
    assert(stripped(empty) == empty);
    let root = seq!['/'];
    assert(!is_space('/'));
    assert(trim_front(root) == root);
    assert(trim_back(root) == root);
    assert(root[0] != '^');
    assert(root.last() != '$');
    assert(chop_back(root, '/') =~= empty);
    assert(stripped(root) == empty);
}

} // verus!
