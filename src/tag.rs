//! Substitution of the run tag for the placeholder token in names.

use vstd::prelude::*;

verus! {

/// The placeholder token that a name may hold: `__DATE__`.
pub open spec fn placeholder() -> Seq<char> {
    seq!['_', '_', 'D', 'A', 'T', 'E', '_', '_']
}

/// Whether the placeholder starts at position `i` of `s`.
pub open spec fn placeholder_starts_at(s: Seq<char>, i: int) -> bool {
    0 <= i && i + placeholder().len() <= s.len() && s.subrange(i, i + placeholder().len()) == placeholder()
}

/// `s` with every occurrence of the placeholder, scanned left to right without
/// overlap, replaced by `tag`.
pub open spec fn with_tag(s: Seq<char>, tag: Seq<char>) -> Seq<char>
    decreases s.len(),
{
    if s.len() == 0 {
        s
    } else if placeholder_starts_at(s, 0) {
        tag + with_tag(s.skip(placeholder().len() as int), tag)
    } else {
        seq![s[0]] + with_tag(s.skip(1), tag)
    }
}

/// Whether the placeholder occurs anywhere in `s`.
pub open spec fn has_placeholder(s: Seq<char>) -> bool {
    exists|i: int| placeholder_starts_at(s, i)
}

fn placeholder_at(s: &str, n: usize, i: usize) -> (r: bool)
    requires
        n == s@.len(),
        i < n,
    ensures
        r == placeholder_starts_at(s@, i as int),
{
    let p = "__DATE__";
    proof {
        reveal_strlit("__DATE__");
    }
    assert(p@ == placeholder());
    if n - i < 8 {
        return false;
    }
    let mut j: usize = 0;
    while j < 8
        invariant
            n == s@.len(),
            i + 8 <= n,
            p@ == placeholder(),
            j <= 8,
            forall|k: int| 0 <= k < j ==> s@[i + k] == placeholder()[k],
        decreases 8 - j,
    {
        if s.get_char(i + j) != p.get_char(j) {
            assert(s@.subrange(i as int, i + 8)[j as int] != placeholder()[j as int]);
            return false;
        }
        j = j + 1;
    }
    assert(s@.subrange(i as int, i + 8) =~= placeholder());
    true
}

/// Replaces every placeholder token in `name` by `tag`.
pub fn resolve_name(name: &str, tag: &str) -> (r: String)
    ensures
        r@ == with_tag(name@, tag@),
{
    let n = name.unicode_len();
    let mut out = String::new();
    let mut i: usize = 0;
    assert(name@.skip(0) =~= name@);
    assert(out@ + with_tag(name@, tag@) =~= with_tag(name@, tag@));
    while i < n
        invariant
            n == name@.len(),
            i <= n,
            with_tag(name@, tag@) == out@ + with_tag(name@.skip(i as int), tag@),
        decreases n - i,
    {
        let rest = Ghost(name@.skip(i as int));
        if placeholder_at(name, n, i) {
            assert(placeholder_starts_at(rest@, 0)) by {
                assert(rest@.subrange(0, 8) =~= name@.subrange(i as int, i + 8));
            }
            assert(rest@.skip(8) =~= name@.skip(i + 8));
            let ghost before = out@;
            out.append(tag);
            i = i + 8;
            assert(before + (tag@ + with_tag(name@.skip(i as int), tag@)) =~= out@ + with_tag(name@.skip(i as int), tag@));
        } else {
            assert(!placeholder_starts_at(rest@, 0)) by {
                if rest@.len() >= 8 {
                    assert(rest@.subrange(0, 8) =~= name@.subrange(i as int, i + 8));
                }
            }
            assert(rest@.skip(1) =~= name@.skip(i + 1));
            let c = name.substring_char(i, i + 1);
            assert(c@ =~= seq![rest@[0]]);
            let ghost before = out@;
            out.append(c);
            i = i + 1;
            assert(before + (c@ + with_tag(name@.skip(i as int), tag@)) =~= out@ + with_tag(name@.skip(i as int), tag@));
        }
    }
    assert(name@.skip(n as int) =~= Seq::<char>::empty());
    out
}

/// A name without the placeholder resolves to itself, whatever the tag: two
/// runs under different tags give it the same resolved name.
pub proof fn lemma_untagged_name_is_fixed(s: Seq<char>, tag1: Seq<char>, tag2: Seq<char>)
    requires
        !has_placeholder(s),
    ensures
        with_tag(s, tag1) == s,
        with_tag(s, tag1) == with_tag(s, tag2),
    decreases s.len(),
{
    if s.len() > 0 {
        assert(!placeholder_starts_at(s, 0));
        assert(!has_placeholder(s.skip(1))) by {
            if has_placeholder(s.skip(1)) {
                let i = choose|i: int| placeholder_starts_at(s.skip(1), i);
                assert(s.subrange(i + 1, i + 1 + 8) =~= s.skip(1).subrange(i, i + 8));
                assert(placeholder_starts_at(s, i + 1));
            }
        }
        lemma_untagged_name_is_fixed(s.skip(1), tag1, tag2);
        assert(seq![s[0]] + s.skip(1) =~= s);
    }
}

} // verus!
