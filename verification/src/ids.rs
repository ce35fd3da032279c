//! Ids made of a prefix and a number, and which of them are free.
//!
//! An id that is given out has to be one that is not in use. Ids are made
//! from the time: the first number from the time onwards whose id is free is
//! taken. Among finitely many ids in use there always is one.

use vstd::prelude::*;
use vstd::set_lib::{lemma_int_range, lemma_len_subset, set_int_range};
use crate::text::{decimal_text, lemma_decimal_text_injective};

verus! {

/// The id made of a prefix and a number.
pub open spec fn numbered(prefix: Seq<char>, n: nat) -> Seq<char> {
    prefix + decimal_text(n)
}

/// Whether the id of the number `n` is not among `ids`.
pub open spec fn is_free(ids: Seq<Seq<char>>, prefix: Seq<char>, n: nat) -> bool {
    !ids.contains(numbered(prefix, n))
}

/// Whether `n` is the first number from `from` onwards whose id is free.
pub open spec fn is_first_free(ids: Seq<Seq<char>>, prefix: Seq<char>, from: nat, n: nat) -> bool {
    &&& from <= n
    &&& is_free(ids, prefix, n)
    &&& forall|m: nat| from <= m < n ==> !#[trigger] is_free(ids, prefix, m)
}

/// The first number from `from` onwards whose id is free.
pub open spec fn first_free(ids: Seq<Seq<char>>, prefix: Seq<char>, from: nat) -> nat {
    choose|n: nat| is_first_free(ids, prefix, from, n)
}

/// Different numbers make different ids.
pub proof fn lemma_numbered_injective(prefix: Seq<char>, a: nat, b: nat)
    requires
        numbered(prefix, a) == numbered(prefix, b),
    ensures
        a == b,
{
    let p = prefix.len() as int;
    assert(numbered(prefix, a).subrange(p, numbered(prefix, a).len() as int) =~= decimal_text(a));
    assert(numbered(prefix, b).subrange(p, numbered(prefix, b).len() as int) =~= decimal_text(b));
    lemma_decimal_text_injective(a, b);
}

/// There is at most one first free number.
pub proof fn lemma_first_free_is_unique(
    ids: Seq<Seq<char>>,
    prefix: Seq<char>,
    from: nat,
    n: nat,
)
    requires
        is_first_free(ids, prefix, from, n),
    ensures
        first_free(ids, prefix, from) == n,
        from <= first_free(ids, prefix, from),
        is_free(ids, prefix, first_free(ids, prefix, from)),
{
    let chosen = first_free(ids, prefix, from);
    assert(is_first_free(ids, prefix, from, chosen));
    if chosen < n {
        assert(!is_free(ids, prefix, chosen));
    }
    if n < chosen {
        assert(!is_free(ids, prefix, n));
    }
}

/// Different indices below a bound are at most as many as the bound.
pub proof fn lemma_distinct_indices_are_few(indices: Seq<int>, bound: nat)
    requires
        indices.no_duplicates(),
        forall|k: int| 0 <= k < indices.len() ==> 0 <= #[trigger] indices[k] < bound,
    ensures
        indices.len() <= bound,
{
    indices.unique_seq_to_set();
    lemma_int_range(0, bound as int);
    assert(indices.to_set().subset_of(set_int_range(0, bound as int))) by {
        assert forall|x: int| indices.to_set().contains(x) implies set_int_range(
            0,
            bound as int,
        ).contains(x) by {
            let k = choose|k: int| 0 <= k < indices.len() && indices[k] == x;
            assert(0 <= indices[k] < bound);
        }
    }
    lemma_len_subset(indices.to_set(), set_int_range(0, bound as int));
}

/// The numbers in a row whose ids are all in use are at most as many as
/// there are ids.
pub proof fn lemma_taken_numbers_are_few(
    ids: Seq<Seq<char>>,
    prefix: Seq<char>,
    from: nat,
    n: nat,
)
    requires
        from <= n,
        forall|m: nat| from <= m < n ==> !#[trigger] is_free(ids, prefix, m),
    ensures
        n - from <= ids.len(),
{
    let indices = Seq::new(
        (n - from) as nat,
        |k: int| ids.index_of(numbered(prefix, (from + k) as nat)),
    );
    assert forall|k: int| 0 <= k < indices.len() implies 0 <= #[trigger] indices[k] < ids.len()
        && ids[indices[k]] == numbered(prefix, (from + k) as nat) by {
        assert(!is_free(ids, prefix, (from + k) as nat));
    }
    assert forall|i: int, j: int|
        0 <= i < indices.len() && 0 <= j < indices.len() && i != j implies indices[i]
        != indices[j] by {
        if indices[i] == indices[j] {
            assert(ids[indices[i]] == numbered(prefix, (from + i) as nat));
            assert(ids[indices[j]] == numbered(prefix, (from + j) as nat));
            lemma_numbered_injective(prefix, (from + i) as nat, (from + j) as nat);
        }
    }
    lemma_distinct_indices_are_few(indices, ids.len());
}

/// Whatever ids are in use, some number from `from` onwards is free, the
/// first of them is at most as far from `from` as there are ids, and
/// `first_free` names it.
pub proof fn lemma_first_free_exists(ids: Seq<Seq<char>>, prefix: Seq<char>, from: nat)
    ensures
        is_first_free(ids, prefix, from, first_free(ids, prefix, from)),
        first_free(ids, prefix, from) - from <= ids.len(),
        is_free(ids, prefix, from) ==> first_free(ids, prefix, from) == from,
{
    lemma_search(ids, prefix, from, from);
    let n = first_free(ids, prefix, from);
    assert(is_first_free(ids, prefix, from, n));
    lemma_taken_numbers_are_few(ids, prefix, from, n);
    if is_free(ids, prefix, from) {
        lemma_first_free_is_unique(ids, prefix, from, from);
    }
}

/// Searching upwards from `n`, with every number from `from` up to `n` in
/// use, comes to a first free number.
proof fn lemma_search(ids: Seq<Seq<char>>, prefix: Seq<char>, from: nat, n: nat)
    requires
        from <= n,
        forall|m: nat| from <= m < n ==> !#[trigger] is_free(ids, prefix, m),
    ensures
        exists|k: nat| is_first_free(ids, prefix, from, k),
    decreases ids.len() + 1 - (n - from),
{
    lemma_taken_numbers_are_few(ids, prefix, from, n);
    if is_free(ids, prefix, n) {
        assert(is_first_free(ids, prefix, from, n));
    } else {
        lemma_taken_numbers_are_few(ids, prefix, from, n + 1);
        lemma_search(ids, prefix, from, n + 1);
    }
}

/// Whether `text` begins with `prefix`.
pub open spec fn has_prefix(text: Seq<char>, prefix: Seq<char>) -> bool {
    prefix.len() <= text.len() && text.subrange(0, prefix.len() as int) == prefix
}

/// What the ids of the members of the group with the number `n` begin
/// with: a lead, the number and an underscore.
pub open spec fn group_prefix(lead: Seq<char>, n: nat) -> Seq<char> {
    lead + decimal_text(n) + seq!['_']
}

/// Whether one of `ids` is the id of a member of the group with the
/// number `n`.
pub open spec fn group_used(ids: Seq<Seq<char>>, lead: Seq<char>, n: nat) -> bool {
    exists|k: int| 0 <= k < ids.len() && has_prefix(#[trigger] ids[k], group_prefix(lead, n))
}

/// Whether the number `n` is open: its own id is not among `own`, and none
/// of `others` is the id of a member of its group.
pub open spec fn is_open(
    own: Seq<Seq<char>>,
    prefix: Seq<char>,
    others: Seq<Seq<char>>,
    lead: Seq<char>,
    n: nat,
) -> bool {
    is_free(own, prefix, n) && !group_used(others, lead, n)
}

/// Whether `n` is the first open number from `from` onwards.
pub open spec fn is_first_open(
    own: Seq<Seq<char>>,
    prefix: Seq<char>,
    others: Seq<Seq<char>>,
    lead: Seq<char>,
    from: nat,
    n: nat,
) -> bool {
    &&& from <= n
    &&& is_open(own, prefix, others, lead, n)
    &&& forall|m: nat| from <= m < n ==> !#[trigger] is_open(own, prefix, others, lead, m)
}

/// The first open number from `from` onwards.
pub open spec fn first_open(
    own: Seq<Seq<char>>,
    prefix: Seq<char>,
    others: Seq<Seq<char>>,
    lead: Seq<char>,
    from: nat,
) -> nat {
    choose|n: nat| is_first_open(own, prefix, others, lead, from, n)
}

/// An id belongs to the group of one number at most.
pub proof fn lemma_group_prefix_injective(lead: Seq<char>, a: nat, b: nat, id: Seq<char>)
    requires
        has_prefix(id, group_prefix(lead, a)),
        has_prefix(id, group_prefix(lead, b)),
    ensures
        a == b,
{
    let da = decimal_text(a);
    let db = decimal_text(b);
    let l = lead.len() as int;
    crate::text::lemma_decimal_text(a);
    crate::text::lemma_decimal_text(b);
    let pa = group_prefix(lead, a);
    let pb = group_prefix(lead, b);
    assert(pa.len() == l + da.len() + 1);
    assert(pb.len() == l + db.len() + 1);
    assert forall|i: int| 0 <= i < pa.len() implies id[i] == pa[i] by {
        assert(id.subrange(0, pa.len() as int)[i] == pa[i]);
    }
    assert forall|i: int| 0 <= i < pb.len() implies id[i] == pb[i] by {
        assert(id.subrange(0, pb.len() as int)[i] == pb[i]);
    }
    if da.len() < db.len() {
        let i = l + da.len();
        assert(pa[i] == '_');
        assert(pb[i] == db[da.len() as int]);
        assert(id[i] == pa[i] && id[i] == pb[i]);
    } else if db.len() < da.len() {
        let i = l + db.len();
        assert(pb[i] == '_');
        assert(pa[i] == da[db.len() as int]);
        assert(id[i] == pa[i] && id[i] == pb[i]);
    } else {
        assert forall|i: int| 0 <= i < da.len() implies da[i] == db[i] by {
            assert(pa[l + i] == da[i]);
            assert(pb[l + i] == db[i]);
            assert(id[l + i] == pa[l + i] && id[l + i] == pb[l + i]);
        }
        assert(da =~= db);
        lemma_decimal_text_injective(a, b);
    }
}

/// There is at most one first open number.
pub proof fn lemma_first_open_is_unique(
    own: Seq<Seq<char>>,
    prefix: Seq<char>,
    others: Seq<Seq<char>>,
    lead: Seq<char>,
    from: nat,
    n: nat,
)
    requires
        is_first_open(own, prefix, others, lead, from, n),
    ensures
        first_open(own, prefix, others, lead, from) == n,
{
    let chosen = first_open(own, prefix, others, lead, from);
    assert(is_first_open(own, prefix, others, lead, from, chosen));
    if chosen < n {
        assert(!is_open(own, prefix, others, lead, chosen));
    }
    if n < chosen {
        assert(!is_open(own, prefix, others, lead, n));
    }
}

/// The numbers in a row none of which is open are at most as many as there
/// are ids of both kinds.
pub proof fn lemma_closed_numbers_are_few(
    own: Seq<Seq<char>>,
    prefix: Seq<char>,
    others: Seq<Seq<char>>,
    lead: Seq<char>,
    from: nat,
    n: nat,
)
    requires
        from <= n,
        forall|m: nat| from <= m < n ==> !#[trigger] is_open(own, prefix, others, lead, m),
    ensures
        n - from <= own.len() + others.len(),
{
    let witness = |k: int|
        {
            let m = (from + k) as nat;
            if !is_free(own, prefix, m) {
                own.index_of(numbered(prefix, m))
            } else {
                own.len() + choose|j: int|
                    0 <= j < others.len() && has_prefix(
                        #[trigger] others[j],
                        group_prefix(lead, m),
                    )
            }
        };
    let indices = Seq::new((n - from) as nat, witness);
    assert forall|k: int| 0 <= k < indices.len() implies {
        let m = (from + k) as nat;
        &&& 0 <= #[trigger] indices[k] < own.len() + others.len()
        &&& !is_free(own, prefix, m) ==> indices[k] < own.len() && own[indices[k]] == numbered(
            prefix,
            m,
        )
        &&& is_free(own, prefix, m) ==> own.len() <= indices[k] && has_prefix(
            others[indices[k] - own.len()],
            group_prefix(lead, m),
        )
    } by {
        let m = (from + k) as nat;
        assert(!is_open(own, prefix, others, lead, m));
    }
    assert forall|i: int, j: int|
        0 <= i < indices.len() && 0 <= j < indices.len() && i != j implies indices[i]
        != indices[j] by {
        let a = (from + i) as nat;
        let b = (from + j) as nat;
        if indices[i] == indices[j] {
            if indices[i] < own.len() {
                assert(!is_free(own, prefix, a) && !is_free(own, prefix, b));
                lemma_numbered_injective(prefix, a, b);
            } else {
                assert(is_free(own, prefix, a) && is_free(own, prefix, b));
                lemma_group_prefix_injective(lead, a, b, others[indices[i] - own.len()]);
            }
        }
    }
    lemma_distinct_indices_are_few(indices, own.len() + others.len());
}

/// Whatever ids are in use, some number from `from` onwards is open, and
/// `first_open` names the first.
pub proof fn lemma_first_open_exists(
    own: Seq<Seq<char>>,
    prefix: Seq<char>,
    others: Seq<Seq<char>>,
    lead: Seq<char>,
    from: nat,
)
    ensures
        is_first_open(own, prefix, others, lead, from, first_open(own, prefix, others, lead, from)),
        first_open(own, prefix, others, lead, from) - from <= own.len() + others.len(),
        is_open(own, prefix, others, lead, from) ==> first_open(own, prefix, others, lead, from)
            == from,
{
    lemma_open_search(own, prefix, others, lead, from, from);
    let n = first_open(own, prefix, others, lead, from);
    assert(is_first_open(own, prefix, others, lead, from, n));
    lemma_closed_numbers_are_few(own, prefix, others, lead, from, n);
    if is_open(own, prefix, others, lead, from) {
        lemma_first_open_is_unique(own, prefix, others, lead, from, from);
    }
}

proof fn lemma_open_search(
    own: Seq<Seq<char>>,
    prefix: Seq<char>,
    others: Seq<Seq<char>>,
    lead: Seq<char>,
    from: nat,
    n: nat,
)
    requires
        from <= n,
        forall|m: nat| from <= m < n ==> !#[trigger] is_open(own, prefix, others, lead, m),
    ensures
        exists|k: nat| is_first_open(own, prefix, others, lead, from, k),
    decreases own.len() + others.len() + 1 - (n - from),
{
    lemma_closed_numbers_are_few(own, prefix, others, lead, from, n);
    if is_open(own, prefix, others, lead, n) {
        assert(is_first_open(own, prefix, others, lead, from, n));
    } else {
        lemma_closed_numbers_are_few(own, prefix, others, lead, from, n + 1);
        lemma_open_search(own, prefix, others, lead, from, n + 1);
    }
}

/// Tells whether `text` begins with `prefix`.
pub fn starts_with(text: &Vec<char>, prefix: &Vec<char>) -> (r: bool)
    ensures
        r == has_prefix(text@, prefix@),
{
    if prefix.len() > text.len() {
        return false;
    }
    let mut i: usize = 0;
    while i < prefix.len()
        invariant
            i <= prefix@.len() <= text@.len(),
            forall|k: int| 0 <= k < i ==> text@[k] == prefix@[k],
        decreases prefix@.len() - i,
    {
        if text[i] != prefix[i] {
            assert(text@.subrange(0, prefix@.len() as int)[i as int] != prefix@[i as int]);
            return false;
        }
        i += 1;
    }
    assert(text@.subrange(0, prefix@.len() as int) =~= prefix@);
    true
}

} // verus!
