//! Laws of the store and of the handlers, stated over the abstract mapping
//! and the handlers' contracts and proved once for all inputs.

use vstd::prelude::*;
use crate::handlers::{clear_post, get_post, set_post, valid_key_chars};
use crate::message::{msg_tag, AOMessage, AOResponse};
use crate::store::value_len_err;

verus! {

/// A Get after a valid Set of the same key returns exactly the value most
/// recently set, whatever the store held before.
pub proof fn lemma_set_then_get(
    set_msg: &AOMessage,
    get_msg: &AOMessage,
    om: Map<Seq<char>, Seq<char>>,
    nm: Map<Seq<char>, Seq<char>>,
    k: Seq<char>,
    v: Seq<char>,
    rs: Result<AOResponse, String>,
    rg: Result<AOResponse, String>,
)
    requires
        msg_tag(set_msg, "Key"@) == Some(k),
        set_msg.data matches Some(d) && d@ == v,
        valid_key_chars(k),
        1 <= k.len() <= 64,
        v.len() <= 1000,
        set_post(set_msg, om, nm, rs),
        msg_tag(get_msg, "Key"@) == Some(k),
        get_post(get_msg, nm, rg),
    ensures
        rg matches Ok(resp) && resp.data@ == v,
{
    assert(nm == om.insert(k, v));
    assert(nm.contains_key(k) && nm[k] == v);
}

/// A Get of a key that was never set returns the literal "Not found".
pub proof fn lemma_get_never_set(
    get_msg: &AOMessage,
    m: Map<Seq<char>, Seq<char>>,
    k: Seq<char>,
    rg: Result<AOResponse, String>,
)
    requires
        msg_tag(get_msg, "Key"@) == Some(k),
        !m.contains_key(k),
        get_post(get_msg, m, rg),
    ensures
        rg matches Ok(resp) && resp.data@ == "Not found"@,
{
}

/// Removing an absent key does not alter the store, nor its size.
pub proof fn lemma_remove_absent(m: Map<Seq<char>, Seq<char>>, k: Seq<char>)
    requires
        !m.contains_key(k),
    ensures
        m.remove(k) == m,
        m.remove(k).dom().len() == m.dom().len(),
{
    assert(m.remove(k) =~= m);
}

/// Removing a present key decreases the store's size by exactly one.
pub proof fn lemma_remove_present(m: Map<Seq<char>, Seq<char>>, k: Seq<char>)
    requires
        m.dom().finite(),
        m.contains_key(k),
    ensures
        m.remove(k).dom().len() == m.dom().len() - 1,
{
    m.lemma_remove_key_len(k);
}

/// Clear always leaves a store of size zero, and it is idempotent: the
/// store after a Clear does not depend on what the store held before, so
/// two Clears in a row end exactly where one does.
pub proof fn lemma_clear_idempotent(
    msg: &AOMessage,
    nm1: Map<Seq<char>, Seq<char>>,
    nm2: Map<Seq<char>, Seq<char>>,
    r1: Result<AOResponse, String>,
    r2: Result<AOResponse, String>,
)
    requires
        clear_post(msg, nm1, r1),
        clear_post(msg, nm2, r2),
    ensures
        nm1 == nm2,
        nm1.dom().len() == 0,
{
    assert(nm1.dom() =~= Set::<Seq<char>>::empty());
}

/// A Set whose key is empty, longer than 64 characters, or includes a
/// character outside the accepted set is rejected — as an error response
/// for a bad character, as a validation failure for a bad length — and the
/// store is unmodified.
pub proof fn lemma_bad_key_set_rejected(
    msg: &AOMessage,
    om: Map<Seq<char>, Seq<char>>,
    nm: Map<Seq<char>, Seq<char>>,
    k: Seq<char>,
    r: Result<AOResponse, String>,
)
    requires
        msg_tag(msg, "Key"@) == Some(k),
        msg.data is Some,
        !valid_key_chars(k) || k.len() == 0 || k.len() > 64,
        set_post(msg, om, nm, r),
    ensures
        nm == om,
        r is Err || (r matches Ok(resp) && resp.action@ == "Error"@),
{
}

/// A Set of a value longer than 1000 characters fails with the value
/// validation text and the store is unmodified. (A key that is itself
/// invalid is rejected for the key's reason first; such inputs are covered
/// by the bad-key law instead.)
pub proof fn lemma_long_value_set_fails(
    msg: &AOMessage,
    om: Map<Seq<char>, Seq<char>>,
    nm: Map<Seq<char>, Seq<char>>,
    k: Seq<char>,
    v: Seq<char>,
    r: Result<AOResponse, String>,
)
    requires
        msg_tag(msg, "Key"@) == Some(k),
        msg.data matches Some(d) && d@ == v,
        valid_key_chars(k),
        1 <= k.len() <= 64,
        v.len() > 1000,
        set_post(msg, om, nm, r),
    ensures
        nm == om,
        r matches Err(e) && e@ == value_len_err(),
{
}

/// The store a sequence of Sets leaves behind, latest Set last.
pub open spec fn after_sets(
    m: Map<Seq<char>, Seq<char>>,
    s: Seq<(Seq<char>, Seq<char>)>,
) -> Map<Seq<char>, Seq<char>>
    decreases s.len(),
{
    if s.len() == 0 {
        m
    } else {
        after_sets(m, s.drop_last()).insert(s.last().0, s.last().1)
    }
}

/// Sets under pairwise-distinct keys all persist: storing N entries under N
/// distinct keys that were not present before grows the store by exactly N,
/// in whatever order the Sets land.
pub proof fn lemma_distinct_sets_all_persist(
    m: Map<Seq<char>, Seq<char>>,
    s: Seq<(Seq<char>, Seq<char>)>,
)
    requires
        m.dom().finite(),
        forall|i: int, j: int|
            0 <= i < j < s.len() ==> (#[trigger] s[i]).0 != (#[trigger] s[j]).0,
        forall|i: int| 0 <= i < s.len() ==> !m.contains_key((#[trigger] s[i]).0),
    ensures
        after_sets(m, s).dom().finite(),
        after_sets(m, s).dom().len() == m.dom().len() + s.len(),
        forall|i: int|
            0 <= i < s.len() ==> after_sets(m, s).contains_key((#[trigger] s[i]).0),
    decreases s.len(),
{
    if s.len() > 0 {
        let s0 = s.drop_last();
        assert forall|i: int| 0 <= i < s0.len() implies !m.contains_key(
            (#[trigger] s0[i]).0,
        ) by {
            assert(s0[i] == s[i]);
        }
        assert forall|i: int, j: int| 0 <= i < j < s0.len() implies (#[trigger] s0[i]).0 != (
        #[trigger] s0[j]).0 by {
            assert(s0[i] == s[i] && s0[j] == s[j]);
        }
        lemma_distinct_sets_all_persist(m, s0);
        lemma_after_sets_untouched(m, s0, s.last().0);
        assert(after_sets(m, s).dom() =~= after_sets(m, s0).dom().insert(s.last().0));
        assert forall|i: int| 0 <= i < s.len() implies after_sets(m, s).contains_key(
            (#[trigger] s[i]).0,
        ) by {
            if i < s.len() - 1 {
                assert(after_sets(m, s0).contains_key(s0[i].0));
            }
        }
    }
}

/// A key no Set in the sequence names, and the store did not hold, is still
/// absent after all of them.
proof fn lemma_after_sets_untouched(
    m: Map<Seq<char>, Seq<char>>,
    s: Seq<(Seq<char>, Seq<char>)>,
    k: Seq<char>,
)
    requires
        !m.contains_key(k),
        forall|i: int| 0 <= i < s.len() ==> (#[trigger] s[i]).0 != k,
    ensures
        !after_sets(m, s).contains_key(k),
    decreases s.len(),
{
    if s.len() > 0 {
        let s0 = s.drop_last();
        assert forall|i: int| 0 <= i < s0.len() implies (#[trigger] s0[i]).0 != k by {
            assert(s0[i] == s[i]);
        }
        lemma_after_sets_untouched(m, s0, k);
        assert(s[s.len() - 1].0 != k);
    }
}

} // verus!
