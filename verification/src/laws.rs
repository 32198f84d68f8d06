//! The stated laws of the state machine, proved against the spec-level
//! step functions that the handlers' contracts are written in.
//!
//! Well-formedness (`wf_state`) says that every container is sorted by
//! its identity key — strictly for entity containers, whose writes keep
//! keys unique, and non-strictly for proposal containers, ordered by
//! (record id, receiving agent, timestamp).

use vstd::prelude::*;

use crate::addressing::{
    spec_agent_address, spec_hash, spec_hex_digit, spec_hex_digits, spec_namespace_prefix,
    spec_page_number, spec_property_address, spec_property_address_range, spec_proposal_address,
    spec_record_address, spec_record_type_address,
};
use crate::containers::{
    find_idx, found, insert_pos, lemma_find_idx, lemma_insert_pos, put_with, remove_first,
    SpecKeyed,
};
use crate::entities::{AgentV, PropertyPageV, PropertyV, ProposalV, RecordTypeV, RecordV};
use crate::proposals::{
    lemma_proposal_insert_pos, proposal_insert, proposal_insert_pos, proposal_le, str_lt,
};
use crate::state::{state_get, state_set, ContainerV, Lookup, StateEntryV};
use crate::strings_order::{lemma_lex_le_antisym, lemma_lex_le_total, lemma_lex_le_trans, lex_le};

verus! {

/// Entries strictly increase by identity key: sorted, with unique keys.
pub open spec fn strictly_sorted<T: SpecKeyed>(s: Seq<T>) -> bool {
    forall|i: int, j: int|
        0 <= i < j < s.len() ==> str_lt((#[trigger] s[i]).vkey(), (#[trigger] s[j]).vkey())
}

/// Proposals are in order of (record id, receiving agent, timestamp).
pub open spec fn proposals_sorted(list: Seq<ProposalV>) -> bool {
    forall|i: int, j: int|
        0 <= i < j < list.len() ==> proposal_le(#[trigger] list[i], #[trigger] list[j])
}

/// A container's entries are sorted by their identity key.
pub open spec fn wf_container(c: ContainerV) -> bool {
    match c {
        ContainerV::Agents(list) => strictly_sorted(list),
        ContainerV::Records(list) => strictly_sorted(list),
        ContainerV::RecordTypes(list) => strictly_sorted(list),
        ContainerV::Properties(list) => strictly_sorted(list),
        ContainerV::PropertyPages(list) => strictly_sorted(list),
        ContainerV::Proposals(list) => proposals_sorted(list),
    }
}

/// Every address appears once, and every container is sorted.
pub open spec fn wf_state(s: Seq<StateEntryV>) -> bool {
    &&& forall|i: int, j: int|
        0 <= i < j < s.len() ==> (#[trigger] s[i]).address != (#[trigger] s[j]).address
    &&& forall|i: int| 0 <= i < s.len() ==> wf_container((#[trigger] s[i]).container)
}

/// Inserting an entry with a fresh key at its sorted position keeps a
/// strictly sorted list strictly sorted.
pub proof fn lemma_insert_strictly_sorted<T: SpecKeyed>(s: Seq<T>, x: T)
    requires
        strictly_sorted(s),
        forall|j: int| 0 <= j < s.len() ==> (#[trigger] s[j].vkey()) != x.vkey(),
    ensures
        strictly_sorted(s.insert(insert_pos(s, x.vkey()), x)),
{
    let p = insert_pos(s, x.vkey());
    lemma_insert_pos(s, x.vkey());
    let t = s.insert(p, x);
    assert forall|i: int, j: int| 0 <= i < j < t.len() implies str_lt(t[i].vkey(), t[j].vkey()) by {
        if i < p && j == p {
            assert(t[i] == s[i]);
            assert(lex_le(s[i].vkey(), x.vkey()));
            assert(s[i].vkey() != x.vkey());
        } else if i == p && p < j {
            assert(t[j] == s[j - 1]);
            assert(j - 1 >= p);
            if j - 1 == p {
                assert(!lex_le(s[p].vkey(), x.vkey()));
                lemma_lex_le_total(s[p].vkey(), x.vkey());
                assert(lex_le(x.vkey(), s[p].vkey()));
            } else {
                assert(!lex_le(s[p].vkey(), x.vkey()));
                lemma_lex_le_total(s[p].vkey(), x.vkey());
                assert(str_lt(s[p].vkey(), s[j - 1].vkey()));
                lemma_lex_le_trans(x.vkey(), s[p].vkey(), s[j - 1].vkey());
            }
        } else if i < p && j > p {
            assert(t[i] == s[i] && t[j] == s[j - 1]);
            if i == j - 1 {
                assert(lex_le(s[i].vkey(), x.vkey()) && s[i].vkey() != x.vkey());
                assert(!lex_le(s[j - 1].vkey(), x.vkey()));
                lemma_lex_le_total(s[j - 1].vkey(), x.vkey());
                lemma_lex_le_antisym(s[i].vkey(), x.vkey());
                assert(str_lt(s[i].vkey(), s[j - 1].vkey())) by {
                    if s[i].vkey() == s[j - 1].vkey() {
                        assert(lex_le(s[j - 1].vkey(), x.vkey()));
                    }
                    lemma_lex_le_trans(s[i].vkey(), x.vkey(), s[j - 1].vkey());
                }
            } else {
                assert(str_lt(s[i].vkey(), s[j - 1].vkey()));
            }
        } else if j < p {
            assert(t[i] == s[i] && t[j] == s[j]);
        } else if i > p {
            assert(t[i] == s[i - 1] && t[j] == s[j - 1]);
        }
    }
}

/// Removing an entry keeps a strictly sorted list strictly sorted.
pub proof fn lemma_remove_strictly_sorted<T: SpecKeyed>(s: Seq<T>, r: int)
    requires
        strictly_sorted(s),
        0 <= r < s.len(),
    ensures
        strictly_sorted(s.remove(r)),
{
    let t = s.remove(r);
    assert forall|i: int, j: int| 0 <= i < j < t.len() implies str_lt(t[i].vkey(), t[j].vkey()) by {
        let i0: int = if i < r {
            i
        } else {
            i + 1
        };
        let j0: int = if j < r {
            j
        } else {
            j + 1
        };
        assert(t[i] == s[i0] && t[j] == s[j0]);
        assert(str_lt(s[i0].vkey(), s[j0].vkey()));
    }
}

/// In a strictly sorted list, `remove_first` leaves no entry with the
/// removed key, and the result is strictly sorted.
pub proof fn lemma_remove_first_strict<T: SpecKeyed>(s: Seq<T>, k: Seq<char>)
    requires
        strictly_sorted(s),
    ensures
        strictly_sorted(remove_first(s, k)),
        forall|j: int|
            0 <= j < remove_first(s, k).len() ==> (#[trigger] remove_first(s, k)[j].vkey()) != k,
{
    lemma_find_idx(s, k);
    match find_idx(s, k) {
        Some(r) => {
            lemma_remove_strictly_sorted(s, r);
            let t = s.remove(r);
            assert forall|j: int| 0 <= j < t.len() implies t[j].vkey() != k by {
                let j0: int = if j < r {
                    j
                } else {
                    j + 1
                };
                assert(t[j] == s[j0]);
                if j0 != r {
                    if j0 < r {
                        assert(str_lt(s[j0].vkey(), s[r].vkey()));
                    } else {
                        assert(str_lt(s[r].vkey(), s[j0].vkey()));
                    }
                    assert(s[r].vkey() == k);
                    if s[j0].vkey() == k {
                        lemma_lex_le_antisym(s[j0].vkey(), s[r].vkey());
                    }
                }
            }
        },
        None => (),
    }
}

/// A replacing write keeps a strictly sorted container strictly sorted.
pub proof fn lemma_put_with_strict<T: SpecKeyed>(s: Seq<T>, x: T)
    requires
        strictly_sorted(s),
    ensures
        strictly_sorted(put_with(s, x.vkey(), x)),
{
    lemma_remove_first_strict(s, x.vkey());
    lemma_insert_strictly_sorted(remove_first(s, x.vkey()), x);
}

/// The proposal order is total.
pub proof fn lemma_proposal_le_total(a: ProposalV, b: ProposalV)
    ensures
        proposal_le(a, b) || proposal_le(b, a),
{
    lemma_lex_le_total(a.record_id, b.record_id);
    lemma_lex_le_total(a.receiving_agent, b.receiving_agent);
}

/// The proposal order is transitive.
pub proof fn lemma_proposal_le_trans(a: ProposalV, b: ProposalV, c: ProposalV)
    requires
        proposal_le(a, b),
        proposal_le(b, c),
    ensures
        proposal_le(a, c),
{
    if str_lt(a.record_id, b.record_id) {
        if str_lt(b.record_id, c.record_id) {
            lemma_lex_le_trans(a.record_id, b.record_id, c.record_id);
            if a.record_id == c.record_id {
                lemma_lex_le_antisym(a.record_id, b.record_id);
            }
        } else {
            assert(b.record_id == c.record_id);
            assert(str_lt(a.record_id, c.record_id));
        }
    } else {
        assert(a.record_id == b.record_id);
        if str_lt(b.record_id, c.record_id) {
            assert(str_lt(a.record_id, c.record_id));
        } else {
            assert(b.record_id == c.record_id);
            if str_lt(a.receiving_agent, b.receiving_agent) {
                if str_lt(b.receiving_agent, c.receiving_agent) {
                    lemma_lex_le_trans(
                        a.receiving_agent,
                        b.receiving_agent,
                        c.receiving_agent,
                    );
                    if a.receiving_agent == c.receiving_agent {
                        lemma_lex_le_antisym(a.receiving_agent, b.receiving_agent);
                    }
                } else {
                    assert(b.receiving_agent == c.receiving_agent);
                    assert(str_lt(a.receiving_agent, c.receiving_agent));
                }
            } else {
                assert(a.receiving_agent == b.receiving_agent);
                if str_lt(b.receiving_agent, c.receiving_agent) {
                    assert(str_lt(a.receiving_agent, c.receiving_agent));
                }
            }
        }
    }
}

/// A sorted insertion keeps a proposal container sorted.
pub proof fn lemma_proposal_insert_sorted(list: Seq<ProposalV>, p: ProposalV)
    requires
        proposals_sorted(list),
    ensures
        proposals_sorted(proposal_insert(list, p)),
{
    let pos = proposal_insert_pos(list, p);
    lemma_proposal_insert_pos(list, p);
    let t = list.insert(pos, p);
    assert forall|i: int, j: int| 0 <= i < j < t.len() implies proposal_le(t[i], t[j]) by {
        if i < pos && j == pos {
            assert(t[i] == list[i]);
        } else if i == pos && pos < j {
            assert(t[j] == list[j - 1]);
            lemma_proposal_le_total(list[pos], p);
            if j - 1 > pos {
                lemma_proposal_le_trans(p, list[pos], list[j - 1]);
            }
        } else if i < pos && j > pos {
            assert(t[i] == list[i] && t[j] == list[j - 1]);
            if i == j - 1 {
                lemma_proposal_le_total(list[j - 1], p);
            } else {
                assert(proposal_le(list[i], list[j - 1]));
            }
        } else if j < pos {
            assert(t[i] == list[i] && t[j] == list[j]);
        } else if i > pos {
            assert(t[i] == list[i - 1] && t[j] == list[j - 1]);
        }
    }
}

/// Removing a proposal keeps the container sorted.
pub proof fn lemma_proposal_remove_sorted(list: Seq<ProposalV>, r: int)
    requires
        proposals_sorted(list),
        0 <= r < list.len(),
    ensures
        proposals_sorted(list.remove(r)),
{
    let t = list.remove(r);
    assert forall|i: int, j: int| 0 <= i < j < t.len() implies proposal_le(t[i], t[j]) by {
        let i0: int = if i < r {
            i
        } else {
            i + 1
        };
        let j0: int = if j < r {
            j
        } else {
            j + 1
        };
        assert(t[i] == list[i0] && t[j] == list[j0]);
        assert(proposal_le(list[i0], list[j0]));
    }
}

/// Writing a well-formed container keeps the store well-formed.
pub proof fn lemma_state_set_wf(s: Seq<StateEntryV>, a: Seq<char>, c: ContainerV)
    requires
        wf_state(s),
        wf_container(c),
    ensures
        wf_state(state_set(s, a, c)),
{
    lemma_find_idx(s, a);
    match find_idx(s, a) {
        Some(i) => {
            let t = s.update(i, StateEntryV { address: a, container: c });
            assert(s[i].vkey() == a);
            assert forall|x: int, y: int|
                0 <= x < y < t.len() implies (#[trigger] t[x]).address != (#[trigger] t[y]).address by {
                assert(s[x].address != s[y].address);
                assert(s[i].address == a);
            }
            assert forall|x: int| 0 <= x < t.len() implies wf_container((#[trigger] t[x]).container) by {
                if x != i {
                    assert(t[x] == s[x]);
                }
            }
        },
        None => {
            let t = s.push(StateEntryV { address: a, container: c });
            assert forall|x: int, y: int|
                0 <= x < y < t.len() implies (#[trigger] t[x]).address != (#[trigger] t[y]).address by {
                if y == s.len() {
                    assert(t[x] == s[x]);
                    assert(s[x].vkey() != a);
                } else {
                    assert(t[x] == s[x] && t[y] == s[y]);
                }
            }
            assert forall|x: int| 0 <= x < t.len() implies wf_container((#[trigger] t[x]).container) by {
                if x < s.len() {
                    assert(t[x] == s[x]);
                }
            }
        },
    }
}

/// Reading back the address just written yields the written container.
pub proof fn lemma_state_get_set(s: Seq<StateEntryV>, a: Seq<char>, c: ContainerV)
    ensures
        state_get(state_set(s, a, c), a) == Some(c),
{
    lemma_find_idx(s, a);
    match find_idx(s, a) {
        Some(i) => {
            let t = s.update(i, StateEntryV { address: a, container: c });
            assert forall|j: int| 0 <= j < i implies (#[trigger] t[j].vkey()) != a by {
                assert(t[j] == s[j]);
            }
            assert(t[i].vkey() == a);
            lemma_find_idx(t, a);
            assert(find_idx(t, a) == Some(i));
        },
        None => {
            let t = s.push(StateEntryV { address: a, container: c });
            assert forall|j: int| 0 <= j < s.len() implies (#[trigger] t[j].vkey()) != a by {
                assert(t[j] == s[j]);
            }
            assert(t[s.len() as int].vkey() == a);
            lemma_find_idx(t, a);
            assert(find_idx(t, a) == Some(s.len() as int));
        },
    }
}

/// A write to one address leaves every other address's container as it
/// was.
pub proof fn lemma_state_get_set_other(
    s: Seq<StateEntryV>,
    a: Seq<char>,
    c: ContainerV,
    b: Seq<char>,
)
    requires
        a != b,
    ensures
        state_get(state_set(s, a, c), b) == state_get(s, b),
{
    lemma_find_idx(s, a);
    lemma_find_idx(s, b);
    match find_idx(s, a) {
        Some(i) => {
            let t = s.update(i, StateEntryV { address: a, container: c });
            assert(s[i].vkey() == a);
            lemma_find_idx(t, b);
            match find_idx(s, b) {
                Some(j) => {
                    assert(j != i);
                    assert(t[j] == s[j]);
                    assert forall|l: int| 0 <= l < j implies (#[trigger] t[l].vkey()) != b by {
                        if l != i {
                            assert(t[l] == s[l]);
                        } else {
                            assert(t[l].vkey() == a);
                        }
                    }
                    assert(find_idx(t, b) == Some(j));
                },
                None => {
                    assert forall|l: int| 0 <= l < t.len() implies (#[trigger] t[l].vkey()) != b by {
                        if l != i {
                            assert(t[l] == s[l]);
                        } else {
                            assert(t[l].vkey() == a);
                        }
                    }
                    if find_idx(t, b) is Some {
                        let j = find_idx(t, b)->Some_0;
                        assert(t[j].vkey() == b);
                    }
                },
            }
        },
        None => {
            let t = s.push(StateEntryV { address: a, container: c });
            lemma_find_idx(t, b);
            match find_idx(s, b) {
                Some(j) => {
                    assert(t[j] == s[j]);
                    assert forall|l: int| 0 <= l < j implies (#[trigger] t[l].vkey()) != b by {
                        assert(t[l] == s[l]);
                    }
                    assert(find_idx(t, b) == Some(j));
                },
                None => {
                    assert forall|l: int| 0 <= l < t.len() implies (#[trigger] t[l].vkey()) != b by {
                        if l < s.len() {
                            assert(t[l] == s[l]);
                        } else {
                            assert(t[l].vkey() == a);
                        }
                    }
                    if find_idx(t, b) is Some {
                        let j = find_idx(t, b)->Some_0;
                        assert(t[j].vkey() == b);
                    }
                },
            }
        },
    }
}


/// After a replacing write, a reader's scan returns the written entry.
pub proof fn lemma_found_put_with<T: SpecKeyed>(s: Seq<T>, x: T)
    requires
        strictly_sorted(s),
    ensures
        found(put_with(s, x.vkey(), x), x.vkey()) == Some(x),
{
    lemma_remove_first_strict(s, x.vkey());
    let s1 = remove_first(s, x.vkey());
    let p = insert_pos(s1, x.vkey());
    lemma_insert_pos(s1, x.vkey());
    let t = s1.insert(p, x);
    assert forall|j: int| 0 <= j < p implies (#[trigger] t[j].vkey()) != x.vkey() by {
        assert(t[j] == s1[j]);
    }
    assert(t[p].vkey() == x.vkey());
    lemma_find_idx(t, x.vkey());
    assert(find_idx(t, x.vkey()) == Some(p));
}

/// A replacing write keyed differently leaves a reader's scan unchanged.
pub proof fn lemma_found_put_with_other<T: SpecKeyed>(s: Seq<T>, x: T, k: Seq<char>)
    requires
        strictly_sorted(s),
        k != x.vkey(),
    ensures
        found(put_with(s, x.vkey(), x), k) == found(s, k),
{
    lemma_remove_first_strict(s, x.vkey());
    lemma_put_with_strict(s, x);
    let s1 = remove_first(s, x.vkey());
    let p = insert_pos(s1, x.vkey());
    lemma_insert_pos(s1, x.vkey());
    let t = s1.insert(p, x);
    lemma_find_idx(s, k);
    lemma_find_idx(s, x.vkey());
    lemma_find_idx(t, k);
    match find_idx(s, k) {
        Some(i) => {
            let i1: int = match find_idx(s, x.vkey()) {
                Some(r) => if i < r {
                    i
                } else {
                    i - 1
                },
                None => i,
            };
            assert(s1[i1] == s[i]) by {
                match find_idx(s, x.vkey()) {
                    Some(r) => {
                        assert(s[i].vkey() != s[r].vkey());
                        assert(i != r);
                    },
                    None => (),
                }
            }
            let i2: int = if i1 < p {
                i1
            } else {
                i1 + 1
            };
            assert(t[i2] == s1[i1]);
            assert(t[i2].vkey() == k);
            assert forall|l: int| 0 <= l < i2 implies (#[trigger] t[l].vkey()) != k by {
                if t[l].vkey() == k {
                    assert(strictly_sorted(t));
                    assert(str_lt(t[l].vkey(), t[i2].vkey()));
                }
            }
            assert(find_idx(t, k) == Some(i2));
        },
        None => {
            assert forall|l: int| 0 <= l < t.len() implies (#[trigger] t[l].vkey()) != k by {
                if l == p {
                    assert(t[l] == x);
                } else {
                    let l1: int = if l < p {
                        l
                    } else {
                        l - 1
                    };
                    assert(t[l] == s1[l1]);
                    let l0: int = match find_idx(s, x.vkey()) {
                        Some(r) => if l1 < r {
                            l1
                        } else {
                            l1 + 1
                        },
                        None => l1,
                    };
                    assert(s1[l1] == s[l0]);
                    assert(s[l0].vkey() != k);
                }
            }
            if find_idx(t, k) is Some {
                let j = find_idx(t, k)->Some_0;
                assert(t[j].vkey() == k);
            }
        },
    }
}

/// A container read back from a well-formed store is sorted.
pub proof fn lemma_state_get_wf(s: Seq<StateEntryV>, a: Seq<char>)
    requires
        wf_state(s),
    ensures
        match state_get(s, a) {
            Some(c) => wf_container(c),
            None => true,
        },
{
    lemma_find_idx(s, a);
}


/// Reading back a written record yields the written record, in any
/// well-formed store (the write rejects only corrupt containers).
pub proof fn law_record_round_trip(s: Seq<StateEntryV>, record_id: Seq<char>, r: RecordV)
    requires
        wf_state(s),
        r.record_id == record_id,
    ensures
        crate::state::spec_set_record(s, record_id, r) matches Some(s2)
            ==> crate::state::spec_get_record(s2, record_id) == Lookup::<RecordV>::Found(r),
{
    let addr = spec_record_address(record_id);
    lemma_state_get_wf(s, addr);
    match state_get(s, addr) {
        None => {
            let list = put_with(Seq::<RecordV>::empty(), record_id, r);
            lemma_found_put_with(Seq::<RecordV>::empty(), r);
            lemma_state_get_set(s, addr, ContainerV::Records(list));
        },
        Some(ContainerV::Records(list0)) => {
            let list = put_with(list0, record_id, r);
            lemma_found_put_with(list0, r);
            lemma_state_get_set(s, addr, ContainerV::Records(list));
        },
        Some(_) => (),
    }
}

/// Reading back a written agent yields the written agent, in any
/// well-formed store.
pub proof fn law_agent_round_trip(s: Seq<StateEntryV>, agent_id: Seq<char>, a: AgentV)
    requires
        wf_state(s),
        a.public_key == agent_id,
    ensures
        crate::state::spec_set_agent(s, agent_id, a) matches Some(s2)
            ==> crate::state::spec_get_agent(s2, agent_id) == Lookup::<AgentV>::Found(a),
{
    let addr = spec_agent_address(agent_id);
    lemma_state_get_wf(s, addr);
    match state_get(s, addr) {
        None => {
            let list = put_with(Seq::<AgentV>::empty(), agent_id, a);
            lemma_found_put_with(Seq::<AgentV>::empty(), a);
            lemma_state_get_set(s, addr, ContainerV::Agents(list));
        },
        Some(ContainerV::Agents(list0)) => {
            let list = put_with(list0, agent_id, a);
            lemma_found_put_with(list0, a);
            lemma_state_get_set(s, addr, ContainerV::Agents(list));
        },
        Some(_) => (),
    }
}

/// Reading back a written record type yields the written record type, in
/// any well-formed store.
pub proof fn law_record_type_round_trip(s: Seq<StateEntryV>, name: Seq<char>, t: RecordTypeV)
    requires
        wf_state(s),
        t.name == name,
    ensures
        crate::state::spec_set_record_type(s, name, t) matches Some(s2)
            ==> crate::state::spec_get_record_type(s2, name) == Lookup::<RecordTypeV>::Found(t),
{
    let addr = spec_record_type_address(name);
    lemma_state_get_wf(s, addr);
    match state_get(s, addr) {
        None => {
            let list = put_with(Seq::<RecordTypeV>::empty(), name, t);
            lemma_found_put_with(Seq::<RecordTypeV>::empty(), t);
            lemma_state_get_set(s, addr, ContainerV::RecordTypes(list));
        },
        Some(ContainerV::RecordTypes(list0)) => {
            let list = put_with(list0, name, t);
            lemma_found_put_with(list0, t);
            lemma_state_get_set(s, addr, ContainerV::RecordTypes(list));
        },
        Some(_) => (),
    }
}

/// Reading back a written property yields the written property.
pub proof fn law_property_round_trip(
    s: Seq<StateEntryV>,
    record_id: Seq<char>,
    name: Seq<char>,
    p: PropertyV,
)
    requires
        wf_state(s),
        p.name == name,
    ensures
        crate::state::spec_set_property(s, record_id, name, p) matches Some(s2)
            ==> crate::state::spec_get_property(s2, record_id, name) == Lookup::<
            PropertyV,
        >::Found(p),
{
    let addr = spec_property_address(record_id, name, 0);
    lemma_state_get_wf(s, addr);
    match state_get(s, addr) {
        None => {
            let list = put_with(Seq::<PropertyV>::empty(), name, p);
            lemma_found_put_with(Seq::<PropertyV>::empty(), p);
            lemma_state_get_set(s, addr, ContainerV::Properties(list));
        },
        Some(ContainerV::Properties(list0)) => {
            let list = put_with(list0, name, p);
            lemma_found_put_with(list0, p);
            lemma_state_get_set(s, addr, ContainerV::Properties(list));
        },
        Some(_) => (),
    }
}

/// Reading back a written property page yields the written page.
pub proof fn law_property_page_round_trip(
    s: Seq<StateEntryV>,
    record_id: Seq<char>,
    name: Seq<char>,
    page: u32,
    p: PropertyPageV,
)
    requires
        wf_state(s),
        p.name == name,
    ensures
        crate::state::spec_set_property_page(s, record_id, name, page, p) matches Some(s2)
            ==> crate::state::spec_get_property_page(s2, record_id, name, page) == Lookup::<
            PropertyPageV,
        >::Found(p),
{
    let addr = spec_property_address(record_id, name, page);
    lemma_state_get_wf(s, addr);
    match state_get(s, addr) {
        None => {
            let list = put_with(Seq::<PropertyPageV>::empty(), name, p);
            lemma_found_put_with(Seq::<PropertyPageV>::empty(), p);
            lemma_state_get_set(s, addr, ContainerV::PropertyPages(list));
        },
        Some(ContainerV::PropertyPages(list0)) => {
            let list = put_with(list0, name, p);
            lemma_found_put_with(list0, p);
            lemma_state_get_set(s, addr, ContainerV::PropertyPages(list));
        },
        Some(_) => (),
    }
}

/// Reading back a written proposal container yields it verbatim.
pub proof fn law_proposals_round_trip(
    s: Seq<StateEntryV>,
    record_id: Seq<char>,
    agent_id: Seq<char>,
    list: Seq<ProposalV>,
)
    ensures
        crate::state::spec_get_proposals(
            crate::state::spec_set_proposals(s, record_id, agent_id, list),
            record_id,
            agent_id,
        ) == Lookup::<Seq<ProposalV>>::Found(list),
{
    let addr = spec_proposal_address(record_id, agent_id);
    lemma_state_get_set(s, addr, ContainerV::Proposals(list));
}

/// An enumeration value is stored as a valid index into the property's
/// options, naming exactly the option supplied. (The option count must
/// fit the stored index's width.)
pub proof fn law_enum_reported_value(
    reporter_index: u32,
    timestamp: u64,
    v: crate::entities::PropertyValueV,
    prop: PropertyV,
)
    requires
        v.data_type == crate::entities::DataType::Enum,
        prop.enum_options.len() < 0x1_0000_0000,
    ensures
        crate::records::spec_make_reported_value(reporter_index, timestamp, v, prop) matches Some(
            rv,
        ) ==> 0 <= rv.enum_value < prop.enum_options.len() && prop.enum_options[
            rv.enum_value as int
        ] == v.enum_value,
{
    crate::records::lemma_opt_index_of(prop.enum_options, v.enum_value);
}

/// Determinism: applying the same transaction to equal states leaves
/// equal states and equal outcomes. The step functions that every
/// handler contract equates the implementation with are functions of the
/// prior state, the payload, and the signer alone.
pub proof fn law_apply_deterministic(
    s1: Seq<StateEntryV>,
    s2: Seq<StateEntryV>,
    p: crate::payload::SCPayloadV,
    signer: Seq<char>,
)
    requires
        s1 == s2,
    ensures
        crate::handler::spec_apply(s1, p, signer) == crate::handler::spec_apply(s2, p, signer),
{
}


/// A found record carries the identifier it was scanned for.
pub proof fn lemma_get_record_name(s: Seq<StateEntryV>, record_id: Seq<char>)
    ensures
        crate::state::spec_get_record(s, record_id) matches Lookup::Found(r) ==> r.record_id
            == record_id,
{
    match state_get(s, spec_record_address(record_id)) {
        Some(ContainerV::Records(list)) => {
            lemma_find_idx(list, record_id);
        },
        _ => (),
    }
}

/// A found property carries the name it was scanned for.
pub proof fn lemma_get_property_name(s: Seq<StateEntryV>, record_id: Seq<char>, name: Seq<char>)
    ensures
        crate::state::spec_get_property(s, record_id, name) matches Lookup::Found(p) ==> p.name
            == name,
{
    match state_get(s, spec_property_address(record_id, name, 0)) {
        Some(ContainerV::Properties(list)) => {
            lemma_find_idx(list, name);
        },
        _ => (),
    }
}

/// A found property page carries the name it was scanned for.
pub proof fn lemma_get_property_page_name(
    s: Seq<StateEntryV>,
    record_id: Seq<char>,
    name: Seq<char>,
    page: u32,
)
    ensures
        crate::state::spec_get_property_page(s, record_id, name, page) matches Lookup::Found(p)
            ==> p.name == name,
{
    match state_get(s, spec_property_address(record_id, name, page)) {
        Some(ContainerV::PropertyPages(list)) => {
            lemma_find_idx(list, name);
        },
        _ => (),
    }
}

/// Writing a record keeps the store well-formed.
pub proof fn lemma_set_record_wf(s: Seq<StateEntryV>, record_id: Seq<char>, r: RecordV)
    requires
        wf_state(s),
        r.record_id == record_id,
    ensures
        crate::state::spec_set_record(s, record_id, r) matches Some(s2) ==> wf_state(s2),
{
    let addr = spec_record_address(record_id);
    lemma_state_get_wf(s, addr);
    match state_get(s, addr) {
        None => {
            lemma_put_with_strict(Seq::<RecordV>::empty(), r);
            lemma_state_set_wf(
                s,
                addr,
                ContainerV::Records(put_with(Seq::<RecordV>::empty(), record_id, r)),
            );
        },
        Some(ContainerV::Records(list0)) => {
            lemma_put_with_strict(list0, r);
            lemma_state_set_wf(s, addr, ContainerV::Records(put_with(list0, record_id, r)));
        },
        Some(_) => (),
    }
}

/// Writing an agent keeps the store well-formed.
pub proof fn lemma_set_agent_wf(s: Seq<StateEntryV>, agent_id: Seq<char>, a: AgentV)
    requires
        wf_state(s),
        a.public_key == agent_id,
    ensures
        crate::state::spec_set_agent(s, agent_id, a) matches Some(s2) ==> wf_state(s2),
{
    let addr = spec_agent_address(agent_id);
    lemma_state_get_wf(s, addr);
    match state_get(s, addr) {
        None => {
            lemma_put_with_strict(Seq::<AgentV>::empty(), a);
            lemma_state_set_wf(
                s,
                addr,
                ContainerV::Agents(put_with(Seq::<AgentV>::empty(), agent_id, a)),
            );
        },
        Some(ContainerV::Agents(list0)) => {
            lemma_put_with_strict(list0, a);
            lemma_state_set_wf(s, addr, ContainerV::Agents(put_with(list0, agent_id, a)));
        },
        Some(_) => (),
    }
}

/// Writing a record type keeps the store well-formed.
pub proof fn lemma_set_record_type_wf(s: Seq<StateEntryV>, name: Seq<char>, t: RecordTypeV)
    requires
        wf_state(s),
        t.name == name,
    ensures
        crate::state::spec_set_record_type(s, name, t) matches Some(s2) ==> wf_state(s2),
{
    let addr = spec_record_type_address(name);
    lemma_state_get_wf(s, addr);
    match state_get(s, addr) {
        None => {
            lemma_put_with_strict(Seq::<RecordTypeV>::empty(), t);
            lemma_state_set_wf(
                s,
                addr,
                ContainerV::RecordTypes(put_with(Seq::<RecordTypeV>::empty(), name, t)),
            );
        },
        Some(ContainerV::RecordTypes(list0)) => {
            lemma_put_with_strict(list0, t);
            lemma_state_set_wf(s, addr, ContainerV::RecordTypes(put_with(list0, name, t)));
        },
        Some(_) => (),
    }
}

/// Writing a property keeps the store well-formed.
pub proof fn lemma_set_property_wf(
    s: Seq<StateEntryV>,
    record_id: Seq<char>,
    name: Seq<char>,
    p: PropertyV,
)
    requires
        wf_state(s),
        p.name == name,
    ensures
        crate::state::spec_set_property(s, record_id, name, p) matches Some(s2) ==> wf_state(s2),
{
    let addr = spec_property_address(record_id, name, 0);
    lemma_state_get_wf(s, addr);
    match state_get(s, addr) {
        None => {
            lemma_put_with_strict(Seq::<PropertyV>::empty(), p);
            lemma_state_set_wf(
                s,
                addr,
                ContainerV::Properties(put_with(Seq::<PropertyV>::empty(), name, p)),
            );
        },
        Some(ContainerV::Properties(list0)) => {
            lemma_put_with_strict(list0, p);
            lemma_state_set_wf(s, addr, ContainerV::Properties(put_with(list0, name, p)));
        },
        Some(_) => (),
    }
}

/// Writing a property page keeps the store well-formed.
pub proof fn lemma_set_property_page_wf(
    s: Seq<StateEntryV>,
    record_id: Seq<char>,
    name: Seq<char>,
    page: u32,
    p: PropertyPageV,
)
    requires
        wf_state(s),
        p.name == name,
    ensures
        crate::state::spec_set_property_page(s, record_id, name, page, p) matches Some(s2)
            ==> wf_state(s2),
{
    let addr = spec_property_address(record_id, name, page);
    lemma_state_get_wf(s, addr);
    match state_get(s, addr) {
        None => {
            lemma_put_with_strict(Seq::<PropertyPageV>::empty(), p);
            lemma_state_set_wf(
                s,
                addr,
                ContainerV::PropertyPages(put_with(Seq::<PropertyPageV>::empty(), name, p)),
            );
        },
        Some(ContainerV::PropertyPages(list0)) => {
            lemma_put_with_strict(list0, p);
            lemma_state_set_wf(s, addr, ContainerV::PropertyPages(put_with(list0, name, p)));
        },
        Some(_) => (),
    }
}

/// Writing a sorted proposal container keeps the store well-formed.
pub proof fn lemma_set_proposals_wf(
    s: Seq<StateEntryV>,
    record_id: Seq<char>,
    agent_id: Seq<char>,
    list: Seq<ProposalV>,
)
    requires
        wf_state(s),
        proposals_sorted(list),
    ensures
        wf_state(crate::state::spec_set_proposals(s, record_id, agent_id, list)),
{
    lemma_state_set_wf(s, spec_proposal_address(record_id, agent_id), ContainerV::Proposals(list));
}

/// A replaced proposal container stays sorted.
pub proof fn lemma_replace_proposal_sorted(list: Seq<ProposalV>, pi: int, newp: ProposalV)
    requires
        proposals_sorted(list),
        0 <= pi < list.len(),
    ensures
        proposals_sorted(crate::proposals::replace_proposal(list, pi, newp)),
        crate::proposals::replace_proposal(list, pi, newp).len() == list.len(),
{
    lemma_proposal_remove_sorted(list, pi);
    lemma_proposal_insert_sorted(list.remove(pi), newp);
    lemma_proposal_insert_pos(list.remove(pi), newp);
}


/// Registering an agent keeps the store well-formed.
pub proof fn lemma_create_agent_wf(
    s: Seq<StateEntryV>,
    a: crate::payload::CreateAgentActionV,
    signer: Seq<char>,
    timestamp: u64,
)
    requires
        wf_state(s),
    ensures
        wf_state(crate::handler::spec_create_agent(s, a, signer, timestamp).state),
{
    match crate::state::spec_get_agent(s, signer) {
        Lookup::Missing => {
            lemma_set_agent_wf(
                s,
                signer,
                AgentV { public_key: signer, name: a.name, timestamp },
            );
        },
        _ => (),
    }
}

/// Registering a record type keeps the store well-formed.
pub proof fn lemma_create_record_type_wf(
    s: Seq<StateEntryV>,
    a: crate::payload::CreateRecordTypeActionV,
    signer: Seq<char>,
)
    requires
        wf_state(s),
    ensures
        wf_state(crate::handler::spec_create_record_type(s, a, signer).state),
{
    if crate::state::spec_get_agent(s, signer) is Found {
        if crate::state::spec_get_record_type(s, a.name) is Missing {
            lemma_set_record_type_wf(
                s,
                a.name,
                RecordTypeV { name: a.name, properties: a.properties },
            );
        }
    }
}

/// Finalizing a record keeps the store well-formed.
pub proof fn lemma_finalize_record_wf(
    s: Seq<StateEntryV>,
    a: crate::payload::FinalizeRecordActionV,
    signer: Seq<char>,
)
    requires
        wf_state(s),
    ensures
        wf_state(crate::handler::spec_finalize_record(s, a, signer).state),
{
    lemma_get_record_name(s, a.record_id);
    match crate::state::spec_get_record(s, a.record_id) {
        Lookup::Found(r) => {
            lemma_set_record_wf(s, a.record_id, RecordV { field_final: true, ..r });
        },
        _ => (),
    }
}

/// The per-property tail of record creation keeps the store well-formed.
pub proof fn lemma_create_record_fold_wf(
    s: Seq<StateEntryV>,
    props: Seq<crate::entities::PropertySchemaV>,
    i: int,
    a: crate::payload::CreateRecordActionV,
    signer: Seq<char>,
    timestamp: u64,
)
    requires
        wf_state(s),
    ensures
        wf_state(crate::records::create_record_fold(s, props, i, a, signer, timestamp).state),
    decreases props.len() - i,
{
    if 0 <= i < props.len() {
        if !crate::containers::is_last_occurrence(props, i) {
            lemma_create_record_fold_wf(s, props, i + 1, a, signer, timestamp);
        } else {
            let sc = props[i];
            let new_property = crate::records::initial_property(sc, a.record_id, signer);
            lemma_set_property_wf(s, a.record_id, sc.name, new_property);
            match crate::state::spec_set_property(s, a.record_id, sc.name, new_property) {
                None => (),
                Some(s1) => {
                    match crate::containers::found_last(a.properties, sc.name) {
                        None => {
                            let page = PropertyPageV {
                                name: sc.name,
                                record_id: a.record_id,
                                reported_values: Seq::empty(),
                            };
                            lemma_set_property_page_wf(s1, a.record_id, sc.name, 1, page);
                            match crate::state::spec_set_property_page(
                                s1,
                                a.record_id,
                                sc.name,
                                1,
                                page,
                            ) {
                                None => (),
                                Some(s2) => {
                                    lemma_create_record_fold_wf(
                                        s2,
                                        props,
                                        i + 1,
                                        a,
                                        signer,
                                        timestamp,
                                    );
                                },
                            }
                        },
                        Some(pv) => {
                            match crate::records::spec_make_reported_value(
                                0,
                                timestamp,
                                pv,
                                new_property,
                            ) {
                                None => (),
                                Some(rv) => {
                                    let page = PropertyPageV {
                                        name: sc.name,
                                        record_id: a.record_id,
                                        reported_values: seq![rv],
                                    };
                                    lemma_set_property_page_wf(
                                        s1,
                                        a.record_id,
                                        sc.name,
                                        1,
                                        page,
                                    );
                                    match crate::state::spec_set_property_page(
                                        s1,
                                        a.record_id,
                                        sc.name,
                                        1,
                                        page,
                                    ) {
                                        None => (),
                                        Some(s2) => {
                                            lemma_create_record_fold_wf(
                                                s2,
                                                props,
                                                i + 1,
                                                a,
                                                signer,
                                                timestamp,
                                            );
                                        },
                                    }
                                },
                            }
                        },
                    }
                },
            }
        }
    }
}

/// Creating a record keeps the store well-formed.
pub proof fn lemma_create_record_wf(
    s: Seq<StateEntryV>,
    a: crate::payload::CreateRecordActionV,
    signer: Seq<char>,
    timestamp: u64,
)
    requires
        wf_state(s),
    ensures
        wf_state(crate::records::spec_create_record(s, a, signer, timestamp).state),
{
    if crate::state::spec_get_agent(s, signer) is Found {
        if crate::state::spec_get_record(s, a.record_id) is Missing {
            match crate::state::spec_get_record_type(s, a.record_type) {
                Lookup::Found(rt) => {
                    if !crate::records::missing_required(rt.properties, a.properties)
                        && !crate::records::invalid_provided(rt.properties, a.properties) {
                        let new_record = RecordV {
                            record_id: a.record_id,
                            record_type: a.record_type,
                            owners: seq![
                                crate::entities::AssociatedAgentV { agent_id: signer, timestamp },
                            ],
                            custodians: seq![
                                crate::entities::AssociatedAgentV { agent_id: signer, timestamp },
                            ],
                            field_final: false,
                        };
                        lemma_set_record_wf(s, a.record_id, new_record);
                        match crate::state::spec_set_record(s, a.record_id, new_record) {
                            None => (),
                            Some(s1) => {
                                lemma_create_record_fold_wf(
                                    s1,
                                    rt.properties,
                                    0,
                                    a,
                                    signer,
                                    timestamp,
                                );
                            },
                        }
                    }
                },
                _ => (),
            }
        }
    }
}

/// The ring advance keeps the store well-formed.
pub proof fn lemma_ring_advance_wf(
    s: Seq<StateEntryV>,
    record_id: Seq<char>,
    name: Seq<char>,
    target: PropertyPageV,
    prop: PropertyV,
    npn: u32,
)
    requires
        wf_state(s),
        target.name == name,
        prop.name == name,
    ensures
        wf_state(crate::records::ring_advance(s, record_id, name, target, prop, npn).state),
{
    lemma_set_property_page_wf(s, record_id, name, npn, target);
    match crate::state::spec_set_property_page(s, record_id, name, npn, target) {
        None => (),
        Some(s2) => {
            let prop2 = PropertyV {
                current_page: npn,
                wrapped: if npn == 1 && !prop.wrapped {
                    true
                } else {
                    prop.wrapped
                },
                ..prop
            };
            lemma_set_property_wf(s2, record_id, name, prop2);
        },
    }
}

/// The per-update tail of a property update keeps the store well-formed.
pub proof fn lemma_update_fold_wf(
    s: Seq<StateEntryV>,
    updates: Seq<crate::entities::PropertyValueV>,
    i: int,
    record_id: Seq<char>,
    signer: Seq<char>,
    timestamp: u64,
)
    requires
        wf_state(s),
    ensures
        wf_state(
            crate::records::update_fold(s, updates, i, record_id, signer, timestamp).state,
        ),
    decreases updates.len() - i,
{
    if 0 <= i < updates.len() {
        let u = updates[i];
        lemma_get_property_name(s, record_id, u.name);
        match crate::state::spec_get_property(s, record_id, u.name) {
            Lookup::Found(prop) => {
                match crate::records::reporter_idx(prop.reporters, signer) {
                    Some(ri) => {
                        if u.data_type == prop.data_type {
                            lemma_get_property_page_name(s, record_id, u.name, prop.current_page);
                            match crate::state::spec_get_property_page(
                                s,
                                record_id,
                                u.name,
                                prop.current_page,
                            ) {
                                Lookup::Found(page) => {
                                    match crate::records::spec_make_reported_value(
                                        prop.reporters[ri].index,
                                        timestamp,
                                        u,
                                        prop,
                                    ) {
                                        Some(rv) => {
                                            let vals = crate::records::insert_reported(
                                                page.reported_values,
                                                rv,
                                            );
                                            let page1 = PropertyPageV {
                                                reported_values: vals,
                                                ..page
                                            };
                                            lemma_set_property_page_wf(
                                                s,
                                                record_id,
                                                u.name,
                                                prop.current_page,
                                                page1,
                                            );
                                            match crate::state::spec_set_property_page(
                                                s,
                                                record_id,
                                                u.name,
                                                prop.current_page,
                                                page1,
                                            ) {
                                                None => (),
                                                Some(s1) => {
                                                    if vals.len() >= 256 {
                                                        let npn =
                                                            crate::records::next_page_number(
                                                            prop.current_page,
                                                        );
                                                        lemma_get_property_page_name(
                                                            s1,
                                                            record_id,
                                                            u.name,
                                                            npn,
                                                        );
                                                        let ring = match crate::state::spec_get_property_page(
                                                            s1,
                                                            record_id,
                                                            u.name,
                                                            npn,
                                                        ) {
                                                            Lookup::Corrupt => crate::state::step_internal(
                                                                s1,
                                                            ),
                                                            Lookup::Found(p2) => {
                                                                lemma_ring_advance_wf(
                                                                    s1,
                                                                    record_id,
                                                                    u.name,
                                                                    PropertyPageV {
                                                                        reported_values:
                                                                            Seq::empty(),
                                                                        ..p2
                                                                    },
                                                                    prop,
                                                                    npn,
                                                                );
                                                                crate::records::ring_advance(
                                                                    s1,
                                                                    record_id,
                                                                    u.name,
                                                                    PropertyPageV {
                                                                        reported_values:
                                                                            Seq::empty(),
                                                                        ..p2
                                                                    },
                                                                    prop,
                                                                    npn,
                                                                )
                                                            },
                                                            Lookup::Missing => {
                                                                lemma_ring_advance_wf(
                                                                    s1,
                                                                    record_id,
                                                                    u.name,
                                                                    PropertyPageV {
                                                                        name: u.name,
                                                                        record_id,
                                                                        reported_values:
                                                                            Seq::empty(),
                                                                    },
                                                                    prop,
                                                                    npn,
                                                                );
                                                                crate::records::ring_advance(
                                                                    s1,
                                                                    record_id,
                                                                    u.name,
                                                                    PropertyPageV {
                                                                        name: u.name,
                                                                        record_id,
                                                                        reported_values:
                                                                            Seq::empty(),
                                                                    },
                                                                    prop,
                                                                    npn,
                                                                )
                                                            },
                                                        };
                                                        if ring.err is None {
                                                            lemma_update_fold_wf(
                                                                ring.state,
                                                                updates,
                                                                i + 1,
                                                                record_id,
                                                                signer,
                                                                timestamp,
                                                            );
                                                        }
                                                    } else {
                                                        lemma_update_fold_wf(
                                                            s1,
                                                            updates,
                                                            i + 1,
                                                            record_id,
                                                            signer,
                                                            timestamp,
                                                        );
                                                    }
                                                },
                                            }
                                        },
                                        None => (),
                                    }
                                },
                                _ => (),
                            }
                        }
                    },
                    None => (),
                }
            },
            _ => (),
        }
    }
}

/// Updating properties keeps the store well-formed.
pub proof fn lemma_update_properties_wf(
    s: Seq<StateEntryV>,
    a: crate::payload::UpdatePropertiesActionV,
    signer: Seq<char>,
    timestamp: u64,
)
    requires
        wf_state(s),
    ensures
        wf_state(crate::records::spec_update_properties(s, a, signer, timestamp).state),
{
    match crate::state::spec_get_record(s, a.record_id) {
        Lookup::Found(r) => {
            if !r.field_final {
                lemma_update_fold_wf(s, a.properties, 0, a.record_id, signer, timestamp);
            }
        },
        _ => (),
    }
}


/// Creating a proposal keeps the store well-formed.
pub proof fn lemma_create_proposal_wf(
    s: Seq<StateEntryV>,
    a: crate::payload::CreateProposalActionV,
    signer: Seq<char>,
    timestamp: u64,
)
    requires
        wf_state(s),
    ensures
        wf_state(crate::proposals::spec_create_proposal(s, a, signer, timestamp).state),
{
    if crate::state::spec_get_agent(s, signer) is Found && crate::state::spec_get_agent(
        s,
        a.receiving_agent,
    ) is Found {
        lemma_state_get_wf(s, spec_proposal_address(a.record_id, a.receiving_agent));
        let list = match crate::state::spec_get_proposals(s, a.record_id, a.receiving_agent) {
            Lookup::Missing => Seq::<ProposalV>::empty(),
            Lookup::Found(l) => l,
            Lookup::Corrupt => Seq::<ProposalV>::empty(),
        };
        if !(crate::state::spec_get_proposals(s, a.record_id, a.receiving_agent) is Corrupt) {
            assert(proposals_sorted(list));
            let new_p = ProposalV {
                record_id: a.record_id,
                timestamp,
                issuing_agent: signer,
                receiving_agent: a.receiving_agent,
                role: a.role,
                properties: a.properties,
                status: crate::entities::ProposalStatus::Open,
            };
            lemma_proposal_insert_sorted(list, new_p);
            lemma_set_proposals_wf(
                s,
                a.record_id,
                a.receiving_agent,
                proposal_insert(list, new_p),
            );
        }
    }
}

/// The per-property tail of revocation keeps the store well-formed.
pub proof fn lemma_revoke_fold_wf(
    s: Seq<StateEntryV>,
    names: Seq<Seq<char>>,
    i: int,
    record_id: Seq<char>,
    reporter_id: Seq<char>,
)
    requires
        wf_state(s),
    ensures
        wf_state(crate::proposals::revoke_fold(s, names, i, record_id, reporter_id).state),
    decreases names.len() - i,
{
    if 0 <= i < names.len() {
        lemma_get_property_name(s, record_id, names[i]);
        match crate::state::spec_get_property(s, record_id, names[i]) {
            Lookup::Found(prop) => {
                let prop2 = PropertyV {
                    reporters: crate::proposals::revoke_reporters(prop.reporters, reporter_id),
                    ..prop
                };
                lemma_set_property_wf(s, record_id, names[i], prop2);
                match crate::state::spec_set_property(s, record_id, names[i], prop2) {
                    None => (),
                    Some(s1) => {
                        lemma_revoke_fold_wf(s1, names, i + 1, record_id, reporter_id);
                    },
                }
            },
            _ => (),
        }
    }
}

/// Revoking a reporter keeps the store well-formed.
pub proof fn lemma_revoke_reporter_wf(
    s: Seq<StateEntryV>,
    a: crate::payload::RevokeReporterActionV,
    signer: Seq<char>,
)
    requires
        wf_state(s),
    ensures
        wf_state(crate::proposals::spec_revoke_reporter(s, a, signer).state),
{
    match crate::state::spec_get_record(s, a.record_id) {
        Lookup::Found(r) => {
            if r.owners.len() > 0 && r.owners.last().agent_id == signer && !r.field_final {
                lemma_revoke_fold_wf(s, a.properties, 0, a.record_id, a.reporter_id);
            }
        },
        _ => (),
    }
}

/// The ownership-transfer tail keeps the store well-formed.
pub proof fn lemma_owner_accept_fold_wf(
    s: Seq<StateEntryV>,
    props: Seq<crate::entities::PropertySchemaV>,
    i: int,
    record_id: Seq<char>,
    old_owner: Seq<char>,
    receiving: Seq<char>,
)
    requires
        wf_state(s),
    ensures
        wf_state(
            crate::proposals::owner_accept_fold(s, props, i, record_id, old_owner, receiving).state,
        ),
    decreases props.len() - i,
{
    if 0 <= i < props.len() {
        match crate::state::spec_get_property(s, record_id, props[i].name) {
            Lookup::Found(prop) => {
                let base = crate::proposals::rebuild_reporters(prop.reporters, old_owner, receiving);
                let reps2 = if crate::proposals::receiving_present(
                    prop.reporters,
                    old_owner,
                    receiving,
                ) {
                    base
                } else {
                    base.push(
                        crate::entities::ReporterV {
                            public_key: receiving,
                            authorized: true,
                            index: prop.reporters.len() as u32,
                        },
                    )
                };
                let prop2 = PropertyV { reporters: reps2, ..prop };
                lemma_set_property_wf(s, record_id, prop.name, prop2);
                match crate::state::spec_set_property(s, record_id, prop.name, prop2) {
                    None => (),
                    Some(s1) => {
                        lemma_owner_accept_fold_wf(
                            s1,
                            props,
                            i + 1,
                            record_id,
                            old_owner,
                            receiving,
                        );
                    },
                }
            },
            _ => (),
        }
    }
}

/// The reporter-authorization tail keeps the store well-formed.
pub proof fn lemma_reporter_accept_fold_wf(
    s: Seq<StateEntryV>,
    names: Seq<Seq<char>>,
    i: int,
    record_id: Seq<char>,
    receiving: Seq<char>,
)
    requires
        wf_state(s),
    ensures
        wf_state(
            crate::proposals::reporter_accept_fold(s, names, i, record_id, receiving).state,
        ),
    decreases names.len() - i,
{
    if 0 <= i < names.len() {
        lemma_get_property_name(s, record_id, names[i]);
        match crate::state::spec_get_property(s, record_id, names[i]) {
            Lookup::Found(prop) => {
                let rep = crate::entities::ReporterV {
                    public_key: receiving,
                    authorized: true,
                    index: prop.reporters.len() as u32,
                };
                let prop2 = PropertyV { reporters: prop.reporters.push(rep), ..prop };
                lemma_set_property_wf(s, record_id, names[i], prop2);
                match crate::state::spec_set_property(s, record_id, names[i], prop2) {
                    None => (),
                    Some(s1) => {
                        lemma_reporter_accept_fold_wf(s1, names, i + 1, record_id, receiving);
                    },
                }
            },
            _ => (),
        }
    }
}

/// Answering a proposal keeps the store well-formed.
pub proof fn lemma_answer_proposal_wf(
    s: Seq<StateEntryV>,
    a: crate::payload::AnswerProposalActionV,
    signer: Seq<char>,
    timestamp: u64,
)
    requires
        wf_state(s),
    ensures
        wf_state(crate::proposals::spec_answer_proposal(s, a, signer, timestamp).state),
{
    lemma_state_get_wf(s, spec_proposal_address(a.record_id, a.receiving_agent));
    match crate::state::spec_get_proposals(s, a.record_id, a.receiving_agent) {
        Lookup::Found(list) => {
            if list.len() > 0 {
                crate::proposals::lemma_open_prop_idx(list, a.record_id, a.receiving_agent, a.role);
                match crate::proposals::open_prop_idx(list, a.record_id, a.receiving_agent, a.role) {
                    Some(pi) => {
                        let cur = list[pi];
                        let canceled = ProposalV {
                            status: crate::entities::ProposalStatus::Canceled,
                            ..cur
                        };
                        let rejected = ProposalV {
                            status: crate::entities::ProposalStatus::Rejected,
                            ..cur
                        };
                        let accepted = ProposalV {
                            status: crate::entities::ProposalStatus::Accepted,
                            ..cur
                        };
                        lemma_replace_proposal_sorted(list, pi, canceled);
                        lemma_replace_proposal_sorted(list, pi, rejected);
                        lemma_replace_proposal_sorted(list, pi, accepted);
                        match a.response {
                            crate::payload::Response::Cancel => {
                                if cur.issuing_agent == signer {
                                    lemma_set_proposals_wf(
                                        s,
                                        a.record_id,
                                        a.receiving_agent,
                                        crate::proposals::replace_proposal(list, pi, canceled),
                                    );
                                }
                            },
                            crate::payload::Response::Reject => {
                                if cur.receiving_agent == signer {
                                    lemma_set_proposals_wf(
                                        s,
                                        a.record_id,
                                        a.receiving_agent,
                                        crate::proposals::replace_proposal(list, pi, rejected),
                                    );
                                }
                            },
                            crate::payload::Response::Accept => {
                                if cur.receiving_agent == signer {
                                    lemma_accept_proposal_wf(s, a, signer, timestamp, list, pi, cur);
                                }
                            },
                        }
                    },
                    None => (),
                }
            }
        },
        _ => (),
    }
}

/// The accept branch keeps the store well-formed.
pub proof fn lemma_accept_proposal_wf(
    s: Seq<StateEntryV>,
    a: crate::payload::AnswerProposalActionV,
    signer: Seq<char>,
    timestamp: u64,
    list: Seq<ProposalV>,
    pi: int,
    cur: ProposalV,
)
    requires
        wf_state(s),
        proposals_sorted(list),
        0 <= pi < list.len(),
    ensures
        wf_state(
            crate::proposals::spec_accept_proposal(s, a, signer, timestamp, list, pi, cur).state,
        ),
{
    let canceled = ProposalV { status: crate::entities::ProposalStatus::Canceled, ..cur };
    let accepted = ProposalV { status: crate::entities::ProposalStatus::Accepted, ..cur };
    lemma_replace_proposal_sorted(list, pi, canceled);
    lemma_replace_proposal_sorted(list, pi, accepted);
    lemma_get_record_name(s, a.record_id);
    match crate::state::spec_get_record(s, a.record_id) {
        Lookup::Found(rec) => {
            if rec.owners.len() > 0 && rec.custodians.len() > 0 {
                let owner = rec.owners.last();
                let custodian = rec.custodians.last();
                match a.role {
                    crate::entities::Role::Owner => {
                        if owner.agent_id != cur.issuing_agent {
                            lemma_set_proposals_wf(
                                s,
                                a.record_id,
                                a.receiving_agent,
                                crate::proposals::replace_proposal(list, pi, canceled),
                            );
                        } else {
                            let rec2 = RecordV {
                                owners: rec.owners.push(
                                    crate::entities::AssociatedAgentV {
                                        agent_id: a.receiving_agent,
                                        timestamp,
                                    },
                                ),
                                ..rec
                            };
                            lemma_set_record_wf(s, a.record_id, rec2);
                            match crate::state::spec_set_record(s, a.record_id, rec2) {
                                None => (),
                                Some(s1) => {
                                    match crate::state::spec_get_record_type(
                                        s1,
                                        rec.record_type,
                                    ) {
                                        Lookup::Found(rt) => {
                                            lemma_owner_accept_fold_wf(
                                                s1,
                                                rt.properties,
                                                0,
                                                a.record_id,
                                                owner.agent_id,
                                                a.receiving_agent,
                                            );
                                            let st = crate::proposals::owner_accept_fold(
                                                s1,
                                                rt.properties,
                                                0,
                                                a.record_id,
                                                owner.agent_id,
                                                a.receiving_agent,
                                            );
                                            if st.err is None {
                                                lemma_set_proposals_wf(
                                                    st.state,
                                                    a.record_id,
                                                    a.receiving_agent,
                                                    crate::proposals::replace_proposal(
                                                        list,
                                                        pi,
                                                        accepted,
                                                    ),
                                                );
                                            }
                                        },
                                        _ => (),
                                    }
                                },
                            }
                        }
                    },
                    crate::entities::Role::Custodian => {
                        if custodian.agent_id != cur.issuing_agent {
                            lemma_set_proposals_wf(
                                s,
                                a.record_id,
                                a.receiving_agent,
                                crate::proposals::replace_proposal(list, pi, canceled),
                            );
                        } else {
                            let rec2 = RecordV {
                                custodians: rec.custodians.push(
                                    crate::entities::AssociatedAgentV {
                                        agent_id: a.receiving_agent,
                                        timestamp,
                                    },
                                ),
                                ..rec
                            };
                            lemma_set_record_wf(s, a.record_id, rec2);
                            match crate::state::spec_set_record(s, a.record_id, rec2) {
                                None => (),
                                Some(s1) => {
                                    lemma_set_proposals_wf(
                                        s1,
                                        a.record_id,
                                        a.receiving_agent,
                                        crate::proposals::replace_proposal(list, pi, accepted),
                                    );
                                },
                            }
                        }
                    },
                    crate::entities::Role::Reporter => {
                        if owner.agent_id != cur.issuing_agent {
                            lemma_set_proposals_wf(
                                s,
                                a.record_id,
                                a.receiving_agent,
                                crate::proposals::replace_proposal(list, pi, canceled),
                            );
                        } else {
                            lemma_reporter_accept_fold_wf(
                                s,
                                cur.properties,
                                0,
                                a.record_id,
                                a.receiving_agent,
                            );
                            let st = crate::proposals::reporter_accept_fold(
                                s,
                                cur.properties,
                                0,
                                a.record_id,
                                a.receiving_agent,
                            );
                            if st.err is None {
                                lemma_set_proposals_wf(
                                    st.state,
                                    a.record_id,
                                    a.receiving_agent,
                                    crate::proposals::replace_proposal(list, pi, accepted),
                                );
                            }
                        }
                    },
                }
            }
        },
        _ => (),
    }
}

/// Container entries read back from any address remain sorted by their
/// identity key across any transaction: applying a payload to a
/// well-formed store leaves a well-formed store, whether the transaction
/// is accepted or rejected.
pub proof fn law_sorted_containers(
    s: Seq<StateEntryV>,
    p: crate::payload::SCPayloadV,
    signer: Seq<char>,
)
    requires
        wf_state(s),
    ensures
        wf_state(crate::handler::spec_apply(s, p, signer).state),
{
    match crate::payload::spec_decode_payload(p) {
        None => (),
        Some((action, ts)) => match action {
            crate::payload::ActionV::CreateAgent(a) => lemma_create_agent_wf(s, a, signer, ts),
            crate::payload::ActionV::CreateRecord(a) => lemma_create_record_wf(s, a, signer, ts),
            crate::payload::ActionV::FinalizeRecord(a) => lemma_finalize_record_wf(s, a, signer),
            crate::payload::ActionV::CreateRecordType(a) => lemma_create_record_type_wf(
                s,
                a,
                signer,
            ),
            crate::payload::ActionV::UpdateProperties(a) => lemma_update_properties_wf(
                s,
                a,
                signer,
                ts,
            ),
            crate::payload::ActionV::CreateProposal(a) => lemma_create_proposal_wf(
                s,
                a,
                signer,
                ts,
            ),
            crate::payload::ActionV::AnswerProposal(a) => lemma_answer_proposal_wf(
                s,
                a,
                signer,
                ts,
            ),
            crate::payload::ActionV::RevokeReporter(a) => lemma_revoke_reporter_wf(s, a, signer),
        },
    }
}


/// The truncated digest has exactly the requested length.
pub proof fn lemma_spec_hash_len(x: Seq<char>, num: nat)
    requires
        num <= 128,
    ensures
        spec_hash(x, num).len() == num,
{
}

/// Two addresses whose kind tags differ are distinct: the tag sits at a
/// fixed offset behind the six-character namespace prefix.
pub proof fn lemma_kind_addresses_differ(x: Seq<char>, y: Seq<char>)
    ensures
        spec_agent_address(x) != spec_record_address(y),
        spec_record_type_address(x) != spec_record_address(y),
        spec_proposal_address(x, x) != spec_record_address(y),
        spec_record_address(x) != spec_property_address_range(y) + spec_hash(y, 22)
            + spec_page_number(0),
{
    assert(spec_namespace_prefix().len() == 6) by {
        lemma_spec_hash_len("supply_chain"@, 6);
    }
    reveal_strlit("ae");
    reveal_strlit("ec");
    reveal_strlit("ee");
    reveal_strlit("ea");
    reveal_strlit("aa");
    assert(spec_agent_address(x)[6] == 'a');
    assert(spec_record_address(y)[6] == 'e');
    assert(spec_record_type_address(x)[7] == 'e');
    assert(spec_record_address(y)[7] == 'c');
    assert(spec_proposal_address(x, x)[6] == 'a');
    assert((spec_property_address_range(y) + spec_hash(y, 22) + spec_page_number(0))[7] == 'a') by {
        lemma_spec_hash_len(y, 36);
    }
    assert(spec_record_address(x)[7] == 'c');
}

/// A proposal address differs from every property address, and an agent
/// or record-type address does too: their kind tags differ.
pub proof fn lemma_property_address_distinct(
    r: Seq<char>,
    n: Seq<char>,
    page: u32,
    x: Seq<char>,
    y: Seq<char>,
)
    ensures
        spec_property_address(r, n, page) != spec_record_address(x),
        spec_property_address(r, n, page) != spec_agent_address(x),
        spec_property_address(r, n, page) != spec_record_type_address(x),
        spec_property_address(r, n, page) != spec_proposal_address(x, y),
{
    assert(spec_namespace_prefix().len() == 6) by {
        lemma_spec_hash_len("supply_chain"@, 6);
    }
    reveal_strlit("ae");
    reveal_strlit("ec");
    reveal_strlit("ee");
    reveal_strlit("ea");
    reveal_strlit("aa");
    assert(spec_property_address(r, n, page)[6] == 'e' && spec_property_address(r, n, page)[7]
        == 'a') by {
        lemma_spec_hash_len(r, 36);
    }
    assert(spec_record_address(x)[7] == 'c');
    assert(spec_agent_address(x)[6] == 'a');
    assert(spec_record_type_address(x)[7] == 'e');
    assert(spec_proposal_address(x, y)[6] == 'a');
}

/// Hexadecimal digits are distinct for distinct values below sixteen.
pub proof fn lemma_hex_digit_zero(d: int)
    requires
        0 <= d < 16,
        spec_hex_digit(d) == '0',
    ensures
        d == 0,
{
}

/// A hex rendering of all zero digits names the number zero.
pub proof fn lemma_hex_digits_all_zero(n: nat)
    requires
        forall|i: int|
            0 <= i < spec_hex_digits(n).len() ==> (#[trigger] spec_hex_digits(n)[i]) == '0',
    ensures
        n == 0,
    decreases n,
{
    if n < 16 {
        assert(spec_hex_digits(n) =~= seq![spec_hex_digit(n as int)]);
        assert(spec_hex_digits(n)[0] == '0');
        lemma_hex_digit_zero(n as int);
    } else {
        let prefix = spec_hex_digits(n / 16);
        assert forall|i: int| 0 <= i < prefix.len() implies (#[trigger] prefix[i]) == '0' by {
            assert(spec_hex_digits(n)[i] == prefix[i]);
        }
        lemma_hex_digits_all_zero(n / 16);
        assert(n / 16 == 0);
    }
}

/// Page numbers render distinctly from page zero.
pub proof fn lemma_page_number_nonzero(page: u32)
    requires
        page >= 1,
    ensures
        spec_page_number(page) != spec_page_number(0),
    decreases page,
{
    assert(spec_hex_digits(0) =~= seq!['0']);
    assert(spec_page_number(0) =~= Seq::new(3, |i: int| '0') + seq!['0']);
    assert forall|i: int| 0 <= i < 4 implies (#[trigger] spec_page_number(0)[i]) == '0' by {}
    if spec_page_number(page) == spec_page_number(0) {
        let digits = spec_hex_digits(page as nat);
        if digits.len() >= 4 {
            assert(spec_page_number(page) == digits);
            assert forall|i: int| 0 <= i < digits.len() implies (#[trigger] digits[i]) == '0' by {
                assert(digits.len() == 4);
                assert(digits[i] == spec_page_number(0)[i]);
            }
            lemma_hex_digits_all_zero(page as nat);
        } else {
            let pad = Seq::new((4 - digits.len()) as nat, |i: int| '0');
            assert(spec_page_number(page) == pad + digits);
            assert forall|i: int| 0 <= i < digits.len() implies (#[trigger] digits[i]) == '0' by {
                assert(digits[i] == (pad + digits)[pad.len() + i]);
                assert((pad + digits).len() == 4);
                assert(spec_page_number(0)[pad.len() + i] == '0');
            }
            lemma_hex_digits_all_zero(page as nat);
        }
    }
}

/// Property addresses with different page renderings are distinct.
pub proof fn lemma_property_page_addresses_differ(
    r1: Seq<char>,
    n1: Seq<char>,
    p1: u32,
    r2: Seq<char>,
    n2: Seq<char>,
    p2: u32,
)
    requires
        spec_page_number(p1) != spec_page_number(p2),
    ensures
        spec_property_address(r1, n1, p1) != spec_property_address(r2, n2, p2),
{
    lemma_spec_hash_len("supply_chain"@, 6);
    lemma_spec_hash_len(r1, 36);
    lemma_spec_hash_len(r2, 36);
    lemma_spec_hash_len(n1, 22);
    lemma_spec_hash_len(n2, 22);
    reveal_strlit("ea");
    assert(spec_property_address_range(r1).len() == 44);
    assert(spec_property_address_range(r2).len() == 44);
    let a1 = spec_property_address(r1, n1, p1);
    let a2 = spec_property_address(r2, n2, p2);
    if a1 == a2 {
        assert(a1.len() == 66 + spec_page_number(p1).len());
        assert(a2.len() == 66 + spec_page_number(p2).len());
        assert(spec_page_number(p1) =~= a1.subrange(66, a1.len() as int));
        assert(spec_page_number(p2) =~= a2.subrange(66, a2.len() as int));
    }
}


/// A write at any other address leaves a record lookup unchanged.
pub proof fn lemma_get_record_state_other(
    s: Seq<StateEntryV>,
    a_w: Seq<char>,
    c: ContainerV,
    rid: Seq<char>,
)
    requires
        a_w != spec_record_address(rid),
    ensures
        crate::state::spec_get_record(state_set(s, a_w, c), rid) == crate::state::spec_get_record(
            s,
            rid,
        ),
{
    lemma_state_get_set_other(s, a_w, c, spec_record_address(rid));
}

/// Writing one record leaves lookups of every other record unchanged.
pub proof fn lemma_get_record_record_other(
    s: Seq<StateEntryV>,
    rid_w: Seq<char>,
    r_w: RecordV,
    rid_g: Seq<char>,
)
    requires
        wf_state(s),
        r_w.record_id == rid_w,
        rid_g != rid_w,
    ensures
        crate::state::spec_set_record(s, rid_w, r_w) matches Some(s2)
            ==> crate::state::spec_get_record(s2, rid_g) == crate::state::spec_get_record(
            s,
            rid_g,
        ),
{
    let aw = spec_record_address(rid_w);
    let ag = spec_record_address(rid_g);
    lemma_state_get_wf(s, aw);
    match state_get(s, aw) {
        None => {
            let list = put_with(Seq::<RecordV>::empty(), rid_w, r_w);
            if aw == ag {
                lemma_state_get_set(s, aw, ContainerV::Records(list));
                lemma_found_put_with_other(Seq::<RecordV>::empty(), r_w, rid_g);
            } else {
                lemma_state_get_set_other(s, aw, ContainerV::Records(list), ag);
            }
        },
        Some(ContainerV::Records(list0)) => {
            let list = put_with(list0, rid_w, r_w);
            if aw == ag {
                lemma_state_get_set(s, aw, ContainerV::Records(list));
                lemma_found_put_with_other(list0, r_w, rid_g);
            } else {
                lemma_state_get_set_other(s, aw, ContainerV::Records(list), ag);
            }
        },
        Some(_) => (),
    }
}

/// Writing a property leaves every record lookup unchanged.
pub proof fn lemma_get_record_property_write(
    s: Seq<StateEntryV>,
    rid_w: Seq<char>,
    n: Seq<char>,
    p: PropertyV,
    rid: Seq<char>,
)
    ensures
        crate::state::spec_set_property(s, rid_w, n, p) matches Some(s2)
            ==> crate::state::spec_get_record(s2, rid) == crate::state::spec_get_record(s, rid),
{
    lemma_property_address_distinct(rid_w, n, 0, rid, rid);
    let aw = spec_property_address(rid_w, n, 0);
    match state_get(s, aw) {
        None => {
            lemma_get_record_state_other(
                s,
                aw,
                ContainerV::Properties(put_with(Seq::<PropertyV>::empty(), n, p)),
                rid,
            );
        },
        Some(ContainerV::Properties(list0)) => {
            lemma_get_record_state_other(
                s,
                aw,
                ContainerV::Properties(put_with(list0, n, p)),
                rid,
            );
        },
        Some(_) => (),
    }
}

/// Writing a property page leaves every record lookup unchanged.
pub proof fn lemma_get_record_page_write(
    s: Seq<StateEntryV>,
    rid_w: Seq<char>,
    n: Seq<char>,
    page: u32,
    p: PropertyPageV,
    rid: Seq<char>,
)
    ensures
        crate::state::spec_set_property_page(s, rid_w, n, page, p) matches Some(s2)
            ==> crate::state::spec_get_record(s2, rid) == crate::state::spec_get_record(s, rid),
{
    lemma_property_address_distinct(rid_w, n, page, rid, rid);
    let aw = spec_property_address(rid_w, n, page);
    match state_get(s, aw) {
        None => {
            lemma_get_record_state_other(
                s,
                aw,
                ContainerV::PropertyPages(put_with(Seq::<PropertyPageV>::empty(), n, p)),
                rid,
            );
        },
        Some(ContainerV::PropertyPages(list0)) => {
            lemma_get_record_state_other(
                s,
                aw,
                ContainerV::PropertyPages(put_with(list0, n, p)),
                rid,
            );
        },
        Some(_) => (),
    }
}

/// Writing an agent leaves every record lookup unchanged.
pub proof fn lemma_get_record_agent_write(
    s: Seq<StateEntryV>,
    aid: Seq<char>,
    a: AgentV,
    rid: Seq<char>,
)
    ensures
        crate::state::spec_set_agent(s, aid, a) matches Some(s2)
            ==> crate::state::spec_get_record(s2, rid) == crate::state::spec_get_record(s, rid),
{
    lemma_kind_addresses_differ(aid, rid);
    let aw = spec_agent_address(aid);
    match state_get(s, aw) {
        None => {
            lemma_get_record_state_other(
                s,
                aw,
                ContainerV::Agents(put_with(Seq::<AgentV>::empty(), aid, a)),
                rid,
            );
        },
        Some(ContainerV::Agents(list0)) => {
            lemma_get_record_state_other(s, aw, ContainerV::Agents(put_with(list0, aid, a)), rid);
        },
        Some(_) => (),
    }
}

/// Writing a record type leaves every record lookup unchanged.
pub proof fn lemma_get_record_record_type_write(
    s: Seq<StateEntryV>,
    name: Seq<char>,
    t: RecordTypeV,
    rid: Seq<char>,
)
    ensures
        crate::state::spec_set_record_type(s, name, t) matches Some(s2)
            ==> crate::state::spec_get_record(s2, rid) == crate::state::spec_get_record(s, rid),
{
    lemma_kind_addresses_differ(name, rid);
    let aw = spec_record_type_address(name);
    match state_get(s, aw) {
        None => {
            lemma_get_record_state_other(
                s,
                aw,
                ContainerV::RecordTypes(put_with(Seq::<RecordTypeV>::empty(), name, t)),
                rid,
            );
        },
        Some(ContainerV::RecordTypes(list0)) => {
            lemma_get_record_state_other(
                s,
                aw,
                ContainerV::RecordTypes(put_with(list0, name, t)),
                rid,
            );
        },
        Some(_) => (),
    }
}

/// Writing a proposal container leaves every record lookup unchanged.
pub proof fn lemma_get_record_proposals_write(
    s: Seq<StateEntryV>,
    rid_w: Seq<char>,
    aid: Seq<char>,
    list: Seq<ProposalV>,
    rid: Seq<char>,
)
    ensures
        crate::state::spec_get_record(
            crate::state::spec_set_proposals(s, rid_w, aid, list),
            rid,
        ) == crate::state::spec_get_record(s, rid),
{
    lemma_kind_addresses_differ(rid_w, rid);
    assert(spec_proposal_address(rid_w, aid) != spec_record_address(rid)) by {
        lemma_spec_hash_len("supply_chain"@, 6);
        reveal_strlit("aa");
        reveal_strlit("ec");
        assert(spec_proposal_address(rid_w, aid)[6] == 'a');
        assert(spec_record_address(rid)[6] == 'e');
    }
    lemma_get_record_state_other(s, spec_proposal_address(rid_w, aid), ContainerV::Proposals(list), rid);
}


/// Every sequence is a prefix of itself.
pub proof fn lemma_prefix_refl<A>(s: Seq<A>)
    ensures
        s.is_prefix_of(s),
{
    assert(s =~= s.subrange(0, s.len() as int));
}

/// A sequence is a prefix of itself extended by one element.
pub proof fn lemma_prefix_push<A>(s: Seq<A>, x: A)
    ensures
        s.is_prefix_of(s.push(x)),
{
    assert(s =~= s.push(x).subrange(0, s.len() as int));
}

/// The record-creation tail leaves every record lookup unchanged.
pub proof fn lemma_create_record_fold_record(
    s: Seq<StateEntryV>,
    props: Seq<crate::entities::PropertySchemaV>,
    i: int,
    a: crate::payload::CreateRecordActionV,
    signer: Seq<char>,
    timestamp: u64,
    rid: Seq<char>,
)
    ensures
        crate::state::spec_get_record(
            crate::records::create_record_fold(s, props, i, a, signer, timestamp).state,
            rid,
        ) == crate::state::spec_get_record(s, rid),
    decreases props.len() - i,
{
    if 0 <= i < props.len() {
        if !crate::containers::is_last_occurrence(props, i) {
            lemma_create_record_fold_record(s, props, i + 1, a, signer, timestamp, rid);
        } else {
            let sc = props[i];
            let new_property = crate::records::initial_property(sc, a.record_id, signer);
            lemma_get_record_property_write(s, a.record_id, sc.name, new_property, rid);
            match crate::state::spec_set_property(s, a.record_id, sc.name, new_property) {
                None => (),
                Some(s1) => {
                    let reported = match crate::containers::found_last(a.properties, sc.name) {
                        None => Some(Seq::<crate::entities::ReportedValueV>::empty()),
                        Some(pv) => match crate::records::spec_make_reported_value(
                            0,
                            timestamp,
                            pv,
                            new_property,
                        ) {
                            None => None,
                            Some(rv) => Some(seq![rv]),
                        },
                    };
                    match reported {
                        None => (),
                        Some(vals) => {
                            let page = PropertyPageV {
                                name: sc.name,
                                record_id: a.record_id,
                                reported_values: vals,
                            };
                            lemma_get_record_page_write(s1, a.record_id, sc.name, 1, page, rid);
                            match crate::state::spec_set_property_page(
                                s1,
                                a.record_id,
                                sc.name,
                                1,
                                page,
                            ) {
                                None => (),
                                Some(s2) => {
                                    lemma_create_record_fold_record(
                                        s2,
                                        props,
                                        i + 1,
                                        a,
                                        signer,
                                        timestamp,
                                        rid,
                                    );
                                },
                            }
                        },
                    }
                },
            }
        }
    }
}

/// The property-update tail leaves every record lookup unchanged.
pub proof fn lemma_update_fold_record(
    s: Seq<StateEntryV>,
    updates: Seq<crate::entities::PropertyValueV>,
    i: int,
    record_id: Seq<char>,
    signer: Seq<char>,
    timestamp: u64,
    rid: Seq<char>,
)
    ensures
        crate::state::spec_get_record(
            crate::records::update_fold(s, updates, i, record_id, signer, timestamp).state,
            rid,
        ) == crate::state::spec_get_record(s, rid),
    decreases updates.len() - i,
{
    if 0 <= i < updates.len() {
        let u = updates[i];
        match crate::state::spec_get_property(s, record_id, u.name) {
            Lookup::Found(prop) => match crate::records::reporter_idx(prop.reporters, signer) {
                Some(ri) => {
                    if u.data_type == prop.data_type {
                        match crate::state::spec_get_property_page(
                            s,
                            record_id,
                            u.name,
                            prop.current_page,
                        ) {
                            Lookup::Found(page) => match crate::records::spec_make_reported_value(
                                prop.reporters[ri].index,
                                timestamp,
                                u,
                                prop,
                            ) {
                                Some(rv) => {
                                    let vals = crate::records::insert_reported(
                                        page.reported_values,
                                        rv,
                                    );
                                    let page1 = PropertyPageV { reported_values: vals, ..page };
                                    lemma_get_record_page_write(
                                        s,
                                        record_id,
                                        u.name,
                                        prop.current_page,
                                        page1,
                                        rid,
                                    );
                                    match crate::state::spec_set_property_page(
                                        s,
                                        record_id,
                                        u.name,
                                        prop.current_page,
                                        page1,
                                    ) {
                                        None => (),
                                        Some(s1) => {
                                            if vals.len() >= 256 {
                                                let npn = crate::records::next_page_number(
                                                    prop.current_page,
                                                );
                                                let target = match crate::state::spec_get_property_page(
                                                    s1,
                                                    record_id,
                                                    u.name,
                                                    npn,
                                                ) {
                                                    Lookup::Corrupt => None,
                                                    Lookup::Found(p2) => Some(
                                                        PropertyPageV {
                                                            reported_values: Seq::empty(),
                                                            ..p2
                                                        },
                                                    ),
                                                    Lookup::Missing => Some(
                                                        PropertyPageV {
                                                            name: u.name,
                                                            record_id,
                                                            reported_values: Seq::empty(),
                                                        },
                                                    ),
                                                };
                                                match target {
                                                    None => (),
                                                    Some(t) => {
                                                        lemma_ring_advance_record(
                                                            s1,
                                                            record_id,
                                                            u.name,
                                                            t,
                                                            prop,
                                                            npn,
                                                            rid,
                                                        );
                                                        let ring = crate::records::ring_advance(
                                                            s1,
                                                            record_id,
                                                            u.name,
                                                            t,
                                                            prop,
                                                            npn,
                                                        );
                                                        if ring.err is None {
                                                            lemma_update_fold_record(
                                                                ring.state,
                                                                updates,
                                                                i + 1,
                                                                record_id,
                                                                signer,
                                                                timestamp,
                                                                rid,
                                                            );
                                                        }
                                                    },
                                                }
                                            } else {
                                                lemma_update_fold_record(
                                                    s1,
                                                    updates,
                                                    i + 1,
                                                    record_id,
                                                    signer,
                                                    timestamp,
                                                    rid,
                                                );
                                            }
                                        },
                                    }
                                },
                                None => (),
                            },
                            _ => (),
                        }
                    }
                },
                None => (),
            },
            _ => (),
        }
    }
}

/// The ring advance leaves every record lookup unchanged.
pub proof fn lemma_ring_advance_record(
    s: Seq<StateEntryV>,
    record_id: Seq<char>,
    name: Seq<char>,
    target: PropertyPageV,
    prop: PropertyV,
    npn: u32,
    rid: Seq<char>,
)
    ensures
        crate::state::spec_get_record(
            crate::records::ring_advance(s, record_id, name, target, prop, npn).state,
            rid,
        ) == crate::state::spec_get_record(s, rid),
{
    lemma_get_record_page_write(s, record_id, name, npn, target, rid);
    match crate::state::spec_set_property_page(s, record_id, name, npn, target) {
        None => (),
        Some(s2) => {
            let prop2 = PropertyV {
                current_page: npn,
                wrapped: if npn == 1 && !prop.wrapped {
                    true
                } else {
                    prop.wrapped
                },
                ..prop
            };
            lemma_get_record_property_write(s2, record_id, name, prop2, rid);
        },
    }
}

/// The ownership-transfer tail leaves every record lookup unchanged.
pub proof fn lemma_owner_accept_fold_record(
    s: Seq<StateEntryV>,
    props: Seq<crate::entities::PropertySchemaV>,
    i: int,
    record_id: Seq<char>,
    old_owner: Seq<char>,
    receiving: Seq<char>,
    rid: Seq<char>,
)
    ensures
        crate::state::spec_get_record(
            crate::proposals::owner_accept_fold(
                s,
                props,
                i,
                record_id,
                old_owner,
                receiving,
            ).state,
            rid,
        ) == crate::state::spec_get_record(s, rid),
    decreases props.len() - i,
{
    if 0 <= i < props.len() {
        match crate::state::spec_get_property(s, record_id, props[i].name) {
            Lookup::Found(prop) => {
                let base = crate::proposals::rebuild_reporters(prop.reporters, old_owner, receiving);
                let reps2 = if crate::proposals::receiving_present(
                    prop.reporters,
                    old_owner,
                    receiving,
                ) {
                    base
                } else {
                    base.push(
                        crate::entities::ReporterV {
                            public_key: receiving,
                            authorized: true,
                            index: prop.reporters.len() as u32,
                        },
                    )
                };
                let prop2 = PropertyV { reporters: reps2, ..prop };
                lemma_get_record_property_write(s, record_id, prop.name, prop2, rid);
                match crate::state::spec_set_property(s, record_id, prop.name, prop2) {
                    None => (),
                    Some(s1) => {
                        lemma_owner_accept_fold_record(
                            s1,
                            props,
                            i + 1,
                            record_id,
                            old_owner,
                            receiving,
                            rid,
                        );
                    },
                }
            },
            _ => (),
        }
    }
}

/// The reporter-authorization tail leaves every record lookup unchanged.
pub proof fn lemma_reporter_accept_fold_record(
    s: Seq<StateEntryV>,
    names: Seq<Seq<char>>,
    i: int,
    record_id: Seq<char>,
    receiving: Seq<char>,
    rid: Seq<char>,
)
    ensures
        crate::state::spec_get_record(
            crate::proposals::reporter_accept_fold(s, names, i, record_id, receiving).state,
            rid,
        ) == crate::state::spec_get_record(s, rid),
    decreases names.len() - i,
{
    if 0 <= i < names.len() {
        match crate::state::spec_get_property(s, record_id, names[i]) {
            Lookup::Found(prop) => {
                let rep = crate::entities::ReporterV {
                    public_key: receiving,
                    authorized: true,
                    index: prop.reporters.len() as u32,
                };
                let prop2 = PropertyV { reporters: prop.reporters.push(rep), ..prop };
                lemma_get_record_property_write(s, record_id, names[i], prop2, rid);
                match crate::state::spec_set_property(s, record_id, names[i], prop2) {
                    None => (),
                    Some(s1) => {
                        lemma_reporter_accept_fold_record(
                            s1,
                            names,
                            i + 1,
                            record_id,
                            receiving,
                            rid,
                        );
                    },
                }
            },
            _ => (),
        }
    }
}

/// The revocation tail leaves every record lookup unchanged.
pub proof fn lemma_revoke_fold_record(
    s: Seq<StateEntryV>,
    names: Seq<Seq<char>>,
    i: int,
    record_id: Seq<char>,
    reporter_id: Seq<char>,
    rid: Seq<char>,
)
    ensures
        crate::state::spec_get_record(
            crate::proposals::revoke_fold(s, names, i, record_id, reporter_id).state,
            rid,
        ) == crate::state::spec_get_record(s, rid),
    decreases names.len() - i,
{
    if 0 <= i < names.len() {
        match crate::state::spec_get_property(s, record_id, names[i]) {
            Lookup::Found(prop) => {
                let prop2 = PropertyV {
                    reporters: crate::proposals::revoke_reporters(prop.reporters, reporter_id),
                    ..prop
                };
                lemma_get_record_property_write(s, record_id, names[i], prop2, rid);
                match crate::state::spec_set_property(s, record_id, names[i], prop2) {
                    None => (),
                    Some(s1) => {
                        lemma_revoke_fold_record(s1, names, i + 1, record_id, reporter_id, rid);
                    },
                }
            },
            _ => (),
        }
    }
}


/// One record history extends another: owners and custodians only grow,
/// keeping the old entries as a prefix.
pub open spec fn record_history_extends(r0: RecordV, r1: RecordV) -> bool {
    r0.owners.is_prefix_of(r1.owners) && r0.custodians.is_prefix_of(r1.custodians)
}

/// A record's history extends itself.
pub proof fn lemma_extends_refl(r: RecordV)
    ensures
        record_history_extends(r, r),
{
    lemma_prefix_refl(r.owners);
    lemma_prefix_refl(r.custodians);
}

/// Owners and custodians only grow: across any applied transaction, an
/// existing record still exists and its prior owner and custodian
/// histories are prefixes of the new ones. The last entries of those
/// histories are what every subsequent authorization check consults.
pub proof fn law_histories_append_only(
    s: Seq<StateEntryV>,
    p: crate::payload::SCPayloadV,
    signer: Seq<char>,
    rid: Seq<char>,
)
    requires
        wf_state(s),
    ensures
        match crate::state::spec_get_record(s, rid) {
            Lookup::Found(r0) => match crate::state::spec_get_record(
                crate::handler::spec_apply(s, p, signer).state,
                rid,
            ) {
                Lookup::Found(r1) => record_history_extends(r0, r1),
                _ => false,
            },
            _ => true,
        },
{
    if crate::state::spec_get_record(s, rid) is Found {
        let r0 = crate::state::spec_get_record(s, rid)->Found_0;
        lemma_extends_refl(r0);
        lemma_get_record_name(s, rid);
        match crate::payload::spec_decode_payload(p) {
            None => (),
            Some((action, ts)) => match action {
                crate::payload::ActionV::CreateAgent(a) => {
                    match crate::state::spec_get_agent(s, signer) {
                        Lookup::Missing => {
                            lemma_get_record_agent_write(
                                s,
                                signer,
                                AgentV { public_key: signer, name: a.name, timestamp: ts },
                                rid,
                            );
                        },
                        _ => (),
                    }
                },
                crate::payload::ActionV::CreateRecordType(a) => {
                    if crate::state::spec_get_agent(s, signer) is Found
                        && crate::state::spec_get_record_type(s, a.name) is Missing {
                        lemma_get_record_record_type_write(
                            s,
                            a.name,
                            RecordTypeV { name: a.name, properties: a.properties },
                            rid,
                        );
                    }
                },
                crate::payload::ActionV::FinalizeRecord(a) => {
                    lemma_get_record_name(s, a.record_id);
                    match crate::state::spec_get_record(s, a.record_id) {
                        Lookup::Found(r) => {
                            let r2 = RecordV { field_final: true, ..r };
                            if rid == a.record_id {
                                law_record_round_trip(s, a.record_id, r2);
                            } else {
                                lemma_get_record_record_other(s, a.record_id, r2, rid);
                            }
                        },
                        _ => (),
                    }
                },
                crate::payload::ActionV::CreateRecord(a) => {
                    if crate::state::spec_get_agent(s, signer) is Found
                        && crate::state::spec_get_record(s, a.record_id) is Missing
                        && crate::state::spec_get_record_type(s, a.record_type) is Found {
                        let rt = crate::state::spec_get_record_type(s, a.record_type)->Found_0;
                        if !crate::records::missing_required(rt.properties, a.properties)
                            && !crate::records::invalid_provided(rt.properties, a.properties) {
                            assert(rid != a.record_id);
                            let new_record = RecordV {
                                record_id: a.record_id,
                                record_type: a.record_type,
                                owners: seq![
                                    crate::entities::AssociatedAgentV {
                                        agent_id: signer,
                                        timestamp: ts,
                                    },
                                ],
                                custodians: seq![
                                    crate::entities::AssociatedAgentV {
                                        agent_id: signer,
                                        timestamp: ts,
                                    },
                                ],
                                field_final: false,
                            };
                            lemma_get_record_record_other(s, a.record_id, new_record, rid);
                            match crate::state::spec_set_record(s, a.record_id, new_record) {
                                None => (),
                                Some(s1) => {
                                    lemma_create_record_fold_record(
                                        s1,
                                        rt.properties,
                                        0,
                                        a,
                                        signer,
                                        ts,
                                        rid,
                                    );
                                },
                            }
                        }
                    }
                },
                crate::payload::ActionV::UpdateProperties(a) => {
                    match crate::state::spec_get_record(s, a.record_id) {
                        Lookup::Found(r) => {
                            if !r.field_final {
                                lemma_update_fold_record(
                                    s,
                                    a.properties,
                                    0,
                                    a.record_id,
                                    signer,
                                    ts,
                                    rid,
                                );
                            }
                        },
                        _ => (),
                    }
                },
                crate::payload::ActionV::CreateProposal(a) => {
                    if crate::state::spec_get_agent(s, signer) is Found
                        && crate::state::spec_get_agent(s, a.receiving_agent) is Found {
                        match crate::state::spec_get_proposals(s, a.record_id, a.receiving_agent) {
                            Lookup::Corrupt => (),
                            Lookup::Missing => {
                                lemma_create_proposal_record(s, a, signer, ts, Seq::empty(), rid);
                            },
                            Lookup::Found(list) => {
                                lemma_create_proposal_record(s, a, signer, ts, list, rid);
                            },
                        }
                    }
                },
                crate::payload::ActionV::AnswerProposal(a) => {
                    lemma_answer_proposal_record(s, a, signer, ts, rid, r0);
                },
                crate::payload::ActionV::RevokeReporter(a) => {
                    match crate::state::spec_get_record(s, a.record_id) {
                        Lookup::Found(r) => {
                            if r.owners.len() > 0 && r.owners.last().agent_id == signer
                                && !r.field_final {
                                lemma_revoke_fold_record(
                                    s,
                                    a.properties,
                                    0,
                                    a.record_id,
                                    a.reporter_id,
                                    rid,
                                );
                            }
                        },
                        _ => (),
                    }
                },
            },
        }
    }
}

/// The proposal write of `create_proposal` leaves record lookups alone.
proof fn lemma_create_proposal_record(
    s: Seq<StateEntryV>,
    a: crate::payload::CreateProposalActionV,
    signer: Seq<char>,
    timestamp: u64,
    list: Seq<ProposalV>,
    rid: Seq<char>,
)
    ensures
        crate::state::spec_get_record(
            crate::proposals::spec_create_proposal(s, a, signer, timestamp).state,
            rid,
        ) == crate::state::spec_get_record(s, rid),
{
    if crate::state::spec_get_agent(s, signer) is Found && crate::state::spec_get_agent(
        s,
        a.receiving_agent,
    ) is Found {
        match crate::state::spec_get_proposals(s, a.record_id, a.receiving_agent) {
            Lookup::Corrupt => (),
            _ => {
                let l = match crate::state::spec_get_proposals(s, a.record_id, a.receiving_agent) {
                    Lookup::Missing => Seq::<ProposalV>::empty(),
                    Lookup::Found(l0) => l0,
                    Lookup::Corrupt => Seq::<ProposalV>::empty(),
                };
                let new_p = ProposalV {
                    record_id: a.record_id,
                    timestamp,
                    issuing_agent: signer,
                    receiving_agent: a.receiving_agent,
                    role: a.role,
                    properties: a.properties,
                    status: crate::entities::ProposalStatus::Open,
                };
                lemma_get_record_proposals_write(
                    s,
                    a.record_id,
                    a.receiving_agent,
                    proposal_insert(l, new_p),
                    rid,
                );
            },
        }
    }
}

/// Answering a proposal only ever extends a record's histories.
proof fn lemma_answer_proposal_record(
    s: Seq<StateEntryV>,
    a: crate::payload::AnswerProposalActionV,
    signer: Seq<char>,
    timestamp: u64,
    rid: Seq<char>,
    r0: RecordV,
)
    requires
        wf_state(s),
        crate::state::spec_get_record(s, rid) == Lookup::<RecordV>::Found(r0),
    ensures
        match crate::state::spec_get_record(
            crate::proposals::spec_answer_proposal(s, a, signer, timestamp).state,
            rid,
        ) {
            Lookup::Found(r1) => record_history_extends(r0, r1),
            _ => false,
        },
{
    lemma_extends_refl(r0);
    lemma_get_record_name(s, rid);
    lemma_state_get_wf(s, spec_proposal_address(a.record_id, a.receiving_agent));
    match crate::state::spec_get_proposals(s, a.record_id, a.receiving_agent) {
        Lookup::Found(list) => {
            if list.len() > 0 {
                crate::proposals::lemma_open_prop_idx(list, a.record_id, a.receiving_agent, a.role);
                match crate::proposals::open_prop_idx(list, a.record_id, a.receiving_agent, a.role) {
                    Some(pi) => {
                        let cur = list[pi];
                        let canceled = ProposalV {
                            status: crate::entities::ProposalStatus::Canceled,
                            ..cur
                        };
                        let rejected = ProposalV {
                            status: crate::entities::ProposalStatus::Rejected,
                            ..cur
                        };
                        let accepted = ProposalV {
                            status: crate::entities::ProposalStatus::Accepted,
                            ..cur
                        };
                        lemma_replace_proposal_sorted(list, pi, canceled);
                        match a.response {
                            crate::payload::Response::Cancel => {
                                if cur.issuing_agent == signer {
                                    lemma_get_record_proposals_write(
                                        s,
                                        a.record_id,
                                        a.receiving_agent,
                                        crate::proposals::replace_proposal(list, pi, canceled),
                                        rid,
                                    );
                                }
                            },
                            crate::payload::Response::Reject => {
                                if cur.receiving_agent == signer {
                                    lemma_get_record_proposals_write(
                                        s,
                                        a.record_id,
                                        a.receiving_agent,
                                        crate::proposals::replace_proposal(list, pi, rejected),
                                        rid,
                                    );
                                }
                            },
                            crate::payload::Response::Accept => {
                                if cur.receiving_agent == signer {
                                    lemma_get_record_name(s, a.record_id);
                                    match crate::state::spec_get_record(s, a.record_id) {
                                        Lookup::Found(rec) => {
                                            if rec.owners.len() > 0 && rec.custodians.len() > 0 {
                                                let owner = rec.owners.last();
                                                let custodian = rec.custodians.last();
                                                match a.role {
                                                    crate::entities::Role::Owner => {
                                                        if owner.agent_id != cur.issuing_agent {
                                                            lemma_get_record_proposals_write(
                                                                s,
                                                                a.record_id,
                                                                a.receiving_agent,
                                                                crate::proposals::replace_proposal(
                                                                    list,
                                                                    pi,
                                                                    canceled,
                                                                ),
                                                                rid,
                                                            );
                                                        } else {
                                                            let rec2 = RecordV {
                                                                owners: rec.owners.push(
                                                                    crate::entities::AssociatedAgentV {
                                                                        agent_id: a.receiving_agent,
                                                                        timestamp,
                                                                    },
                                                                ),
                                                                ..rec
                                                            };
                                                            if rid == a.record_id {
                                                                law_record_round_trip(
                                                                    s,
                                                                    a.record_id,
                                                                    rec2,
                                                                );
                                                                lemma_prefix_push(
                                                                    rec.owners,
                                                                    crate::entities::AssociatedAgentV {
                                                                        agent_id: a.receiving_agent,
                                                                        timestamp,
                                                                    },
                                                                );
                                                                lemma_prefix_refl(rec.custodians);
                                                            } else {
                                                                lemma_get_record_record_other(
                                                                    s,
                                                                    a.record_id,
                                                                    rec2,
                                                                    rid,
                                                                );
                                                            }
                                                            match crate::state::spec_set_record(
                                                                s,
                                                                a.record_id,
                                                                rec2,
                                                            ) {
                                                                None => (),
                                                                Some(s1) => {
                                                                    match crate::state::spec_get_record_type(
                                                                        s1,
                                                                        rec.record_type,
                                                                    ) {
                                                                        Lookup::Found(rt) => {
                                                                            lemma_owner_accept_fold_record(
                                                                                s1,
                                                                                rt.properties,
                                                                                0,
                                                                                a.record_id,
                                                                                owner.agent_id,
                                                                                a.receiving_agent,
                                                                                rid,
                                                                            );
                                                                            let st = crate::proposals::owner_accept_fold(
                                                                                s1,
                                                                                rt.properties,
                                                                                0,
                                                                                a.record_id,
                                                                                owner.agent_id,
                                                                                a.receiving_agent,
                                                                            );
                                                                            if st.err is None {
                                                                                lemma_get_record_proposals_write(
                                                                                    st.state,
                                                                                    a.record_id,
                                                                                    a.receiving_agent,
                                                                                    crate::proposals::replace_proposal(
                                                                                        list,
                                                                                        pi,
                                                                                        accepted,
                                                                                    ),
                                                                                    rid,
                                                                                );
                                                                            }
                                                                        },
                                                                        _ => (),
                                                                    }
                                                                },
                                                            }
                                                        }
                                                    },
                                                    crate::entities::Role::Custodian => {
                                                        if custodian.agent_id
                                                            != cur.issuing_agent {
                                                            lemma_get_record_proposals_write(
                                                                s,
                                                                a.record_id,
                                                                a.receiving_agent,
                                                                crate::proposals::replace_proposal(
                                                                    list,
                                                                    pi,
                                                                    canceled,
                                                                ),
                                                                rid,
                                                            );
                                                        } else {
                                                            let rec2 = RecordV {
                                                                custodians: rec.custodians.push(
                                                                    crate::entities::AssociatedAgentV {
                                                                        agent_id: a.receiving_agent,
                                                                        timestamp,
                                                                    },
                                                                ),
                                                                ..rec
                                                            };
                                                            if rid == a.record_id {
                                                                law_record_round_trip(
                                                                    s,
                                                                    a.record_id,
                                                                    rec2,
                                                                );
                                                                lemma_prefix_push(
                                                                    rec.custodians,
                                                                    crate::entities::AssociatedAgentV {
                                                                        agent_id: a.receiving_agent,
                                                                        timestamp,
                                                                    },
                                                                );
                                                                lemma_prefix_refl(rec.owners);
                                                            } else {
                                                                lemma_get_record_record_other(
                                                                    s,
                                                                    a.record_id,
                                                                    rec2,
                                                                    rid,
                                                                );
                                                            }
                                                            match crate::state::spec_set_record(
                                                                s,
                                                                a.record_id,
                                                                rec2,
                                                            ) {
                                                                None => (),
                                                                Some(s1) => {
                                                                    lemma_get_record_proposals_write(
                                                                        s1,
                                                                        a.record_id,
                                                                        a.receiving_agent,
                                                                        crate::proposals::replace_proposal(
                                                                            list,
                                                                            pi,
                                                                            accepted,
                                                                        ),
                                                                        rid,
                                                                    );
                                                                },
                                                            }
                                                        }
                                                    },
                                                    crate::entities::Role::Reporter => {
                                                        if owner.agent_id != cur.issuing_agent {
                                                            lemma_get_record_proposals_write(
                                                                s,
                                                                a.record_id,
                                                                a.receiving_agent,
                                                                crate::proposals::replace_proposal(
                                                                    list,
                                                                    pi,
                                                                    canceled,
                                                                ),
                                                                rid,
                                                            );
                                                        } else {
                                                            lemma_reporter_accept_fold_record(
                                                                s,
                                                                cur.properties,
                                                                0,
                                                                a.record_id,
                                                                a.receiving_agent,
                                                                rid,
                                                            );
                                                            let st = crate::proposals::reporter_accept_fold(
                                                                s,
                                                                cur.properties,
                                                                0,
                                                                a.record_id,
                                                                a.receiving_agent,
                                                            );
                                                            if st.err is None {
                                                                lemma_get_record_proposals_write(
                                                                    st.state,
                                                                    a.record_id,
                                                                    a.receiving_agent,
                                                                    crate::proposals::replace_proposal(
                                                                        list,
                                                                        pi,
                                                                        accepted,
                                                                    ),
                                                                    rid,
                                                                );
                                                            }
                                                        }
                                                    },
                                                }
                                            }
                                        },
                                        _ => (),
                                    }
                                }
                            },
                        }
                    },
                    None => (),
                }
            }
        },
        _ => (),
    }
}


/// A write at any other address leaves a property lookup unchanged.
pub proof fn lemma_get_property_state_other(
    s: Seq<StateEntryV>,
    a_w: Seq<char>,
    c: ContainerV,
    rid: Seq<char>,
    n: Seq<char>,
)
    requires
        a_w != spec_property_address(rid, n, 0),
    ensures
        crate::state::spec_get_property(state_set(s, a_w, c), rid, n)
            == crate::state::spec_get_property(s, rid, n),
{
    lemma_state_get_set_other(s, a_w, c, spec_property_address(rid, n, 0));
}

/// Writing one property leaves lookups of every other property name
/// unchanged, even when truncated hashes collide their addresses.
pub proof fn lemma_get_property_property_other(
    s: Seq<StateEntryV>,
    rid_w: Seq<char>,
    n_w: Seq<char>,
    p_w: PropertyV,
    rid_g: Seq<char>,
    n_g: Seq<char>,
)
    requires
        wf_state(s),
        p_w.name == n_w,
        n_g != n_w,
    ensures
        crate::state::spec_set_property(s, rid_w, n_w, p_w) matches Some(s2)
            ==> crate::state::spec_get_property(s2, rid_g, n_g)
            == crate::state::spec_get_property(s, rid_g, n_g),
{
    let aw = spec_property_address(rid_w, n_w, 0);
    let ag = spec_property_address(rid_g, n_g, 0);
    lemma_state_get_wf(s, aw);
    match state_get(s, aw) {
        None => {
            let list = put_with(Seq::<PropertyV>::empty(), n_w, p_w);
            if aw == ag {
                lemma_state_get_set(s, aw, ContainerV::Properties(list));
                lemma_found_put_with_other(Seq::<PropertyV>::empty(), p_w, n_g);
            } else {
                lemma_state_get_set_other(s, aw, ContainerV::Properties(list), ag);
            }
        },
        Some(ContainerV::Properties(list0)) => {
            let list = put_with(list0, n_w, p_w);
            if aw == ag {
                lemma_state_get_set(s, aw, ContainerV::Properties(list));
                lemma_found_put_with_other(list0, p_w, n_g);
            } else {
                lemma_state_get_set_other(s, aw, ContainerV::Properties(list), ag);
            }
        },
        Some(_) => (),
    }
}

/// The reporter list an accepted ownership transfer installs: the prior
/// owner's entries lose authorization, the receiving agent's entry is
/// authorized, appended fresh at the next index when absent.
pub open spec fn transferred_reporters(
    reps: Seq<crate::entities::ReporterV>,
    old_owner: Seq<char>,
    receiving: Seq<char>,
) -> Seq<crate::entities::ReporterV> {
    let base = crate::proposals::rebuild_reporters(reps, old_owner, receiving);
    if crate::proposals::receiving_present(reps, old_owner, receiving) {
        base
    } else {
        base.push(
            crate::entities::ReporterV {
                public_key: receiving,
                authorized: true,
                index: reps.len() as u32,
            },
        )
    }
}

/// What an ownership transfer does to each reporter entry: the prior
/// owner's entries become unauthorized, the new owner's entry exists and
/// is authorized, and every other entry keeps its key, index, and
/// authorization.
pub proof fn law_transfer_reporters_pointwise(
    reps: Seq<crate::entities::ReporterV>,
    old_owner: Seq<char>,
    receiving: Seq<char>,
)
    ensures
        ({
            let t = transferred_reporters(reps, old_owner, receiving);
            &&& t.len() == reps.len() || t.len() == reps.len() + 1
            &&& forall|j: int|
                0 <= j < reps.len() ==> (#[trigger] t[j]).public_key == reps[j].public_key
                    && t[j].index == reps[j].index
            &&& forall|j: int|
                0 <= j < reps.len() && (#[trigger] reps[j]).public_key == old_owner ==> !t[
                    j
                ].authorized
            &&& forall|j: int|
                0 <= j < reps.len() && (#[trigger] reps[j]).public_key != old_owner
                    && reps[j].public_key == receiving ==> t[j].authorized
            &&& forall|j: int|
                0 <= j < reps.len() && (#[trigger] reps[j]).public_key != old_owner
                    && reps[j].public_key != receiving ==> t[j].authorized == reps[j].authorized
            &&& exists|j: int|
                0 <= j < t.len() && (#[trigger] t[j]).public_key == receiving && t[j].authorized
        }),
{
    let t = transferred_reporters(reps, old_owner, receiving);
    if crate::proposals::receiving_present(reps, old_owner, receiving) {
        let w = choose|j: int|
            0 <= j < reps.len() && (#[trigger] reps[j]).public_key == receiving
                && reps[j].public_key != old_owner;
        assert(t[w].public_key == receiving && t[w].authorized);
    } else {
        assert(t[reps.len() as int].public_key == receiving && t[reps.len() as int].authorized);
    }
}

/// The ownership-transfer tail rewrites exactly the listed properties:
/// each property named by a distinct schema entry carries the
/// transferred reporter list afterwards, and properties of other names
/// are untouched.
pub proof fn law_ownership_transfer(
    s: Seq<StateEntryV>,
    props: Seq<crate::entities::PropertySchemaV>,
    i: int,
    record_id: Seq<char>,
    old_owner: Seq<char>,
    receiving: Seq<char>,
)
    requires
        wf_state(s),
        0 <= i,
        forall|k1: int, k2: int|
            i <= k1 < k2 < props.len() ==> (#[trigger] props[k1]).name != (
            #[trigger] props[k2]).name,
    ensures
        ({
            let st = crate::proposals::owner_accept_fold(
                s,
                props,
                i,
                record_id,
                old_owner,
                receiving,
            );
            st.err is None ==> (forall|k: int|
                i <= k < props.len() ==> match crate::state::spec_get_property(
                    s,
                    record_id,
                    (#[trigger] props[k]).name,
                ) {
                    Lookup::Found(p0) => crate::state::spec_get_property(
                        st.state,
                        record_id,
                        props[k].name,
                    ) == Lookup::<PropertyV>::Found(
                        PropertyV {
                            reporters: transferred_reporters(p0.reporters, old_owner, receiving),
                            ..p0
                        },
                    ),
                    _ => false,
                })
        }),
        ({
            let st = crate::proposals::owner_accept_fold(
                s,
                props,
                i,
                record_id,
                old_owner,
                receiving,
            );
            st.err is None ==> (forall|n: Seq<char>|
                (forall|k: int| i <= k < props.len() ==> (#[trigger] props[k]).name != n)
                    ==> (#[trigger] crate::state::spec_get_property(st.state, record_id, n))
                    == crate::state::spec_get_property(s, record_id, n))
        }),
    decreases props.len() - i,
{
    if 0 <= i < props.len() {
        lemma_get_property_name(s, record_id, props[i].name);
        match crate::state::spec_get_property(s, record_id, props[i].name) {
            Lookup::Found(prop) => {
                let reps2 = transferred_reporters(prop.reporters, old_owner, receiving);
                let prop2 = PropertyV { reporters: reps2, ..prop };
                lemma_set_property_wf(s, record_id, prop.name, prop2);
                law_property_round_trip(s, record_id, prop.name, prop2);
                match crate::state::spec_set_property(s, record_id, prop.name, prop2) {
                    None => (),
                    Some(s1) => {
                        law_ownership_transfer(s1, props, i + 1, record_id, old_owner, receiving);
                        let st = crate::proposals::owner_accept_fold(
                            s1,
                            props,
                            i + 1,
                            record_id,
                            old_owner,
                            receiving,
                        );
                        if st.err is None {
                            assert forall|k: int|
                                i <= k < props.len() implies match crate::state::spec_get_property(
                                s,
                                record_id,
                                (#[trigger] props[k]).name,
                            ) {
                                Lookup::Found(p0) => crate::state::spec_get_property(
                                    st.state,
                                    record_id,
                                    props[k].name,
                                ) == Lookup::<PropertyV>::Found(
                                    PropertyV {
                                        reporters: transferred_reporters(
                                            p0.reporters,
                                            old_owner,
                                            receiving,
                                        ),
                                        ..p0
                                    },
                                ),
                                _ => false,
                            } by {
                                if k == i {
                                    assert(crate::state::spec_get_property(
                                        s1,
                                        record_id,
                                        props[i].name,
                                    ) == Lookup::<PropertyV>::Found(prop2));
                                    assert(crate::state::spec_get_property(
                                        st.state,
                                        record_id,
                                        props[i].name,
                                    ) == Lookup::<PropertyV>::Found(prop2));
                                } else {
                                    lemma_get_property_property_other(
                                        s,
                                        record_id,
                                        prop.name,
                                        prop2,
                                        record_id,
                                        props[k].name,
                                    );
                                }
                            }
                            assert forall|n: Seq<char>|
                                (forall|k: int|
                                    i <= k < props.len() ==> (#[trigger] props[k]).name
                                        != n) implies (#[trigger] crate::state::spec_get_property(
                                st.state,
                                record_id,
                                n,
                            )) == crate::state::spec_get_property(s, record_id, n) by {
                                lemma_get_property_property_other(
                                    s,
                                    record_id,
                                    prop.name,
                                    prop2,
                                    record_id,
                                    n,
                                );
                            }
                        }
                    },
                }
            },
            _ => (),
        }
    }
}


/// Hexadecimal digits are injective below sixteen.
pub proof fn lemma_hex_digit_injective(a: int, b: int)
    requires
        0 <= a < 16,
        0 <= b < 16,
        spec_hex_digit(a) == spec_hex_digit(b),
    ensures
        a == b,
{
}

/// The leading digit of a multi-digit hex rendering is not zero.
pub proof fn lemma_hex_digits_leading_nonzero(n: nat)
    requires
        n >= 16,
    ensures
        spec_hex_digits(n)[0] != '0',
    decreases n,
{
    assert(spec_hex_digits(n)[0] == spec_hex_digits(n / 16)[0]);
    if n / 16 >= 16 {
        lemma_hex_digits_leading_nonzero(n / 16);
    } else {
        assert(spec_hex_digits(n / 16) =~= seq![spec_hex_digit((n / 16) as int)]);
        if spec_hex_digit((n / 16) as int) == '0' {
            lemma_hex_digit_injective((n / 16) as int, 0);
        }
    }
}

/// Hex renderings are injective.
pub proof fn lemma_hex_digits_injective(n: nat, m: nat)
    requires
        spec_hex_digits(n) == spec_hex_digits(m),
    ensures
        n == m,
    decreases n,
{
    if n < 16 && m < 16 {
        assert(spec_hex_digits(n)[0] == spec_hex_digit(n as int));
        assert(spec_hex_digits(m)[0] == spec_hex_digit(m as int));
        lemma_hex_digit_injective(n as int, m as int);
    } else if n >= 16 && m >= 16 {
        assert(spec_hex_digits(n).last() == spec_hex_digit((n % 16) as int));
        assert(spec_hex_digits(m).last() == spec_hex_digit((m % 16) as int));
        lemma_hex_digit_injective((n % 16) as int, (m % 16) as int);
        assert(spec_hex_digits(n / 16) =~= spec_hex_digits(n).drop_last());
        assert(spec_hex_digits(m / 16) =~= spec_hex_digits(m).drop_last());
        lemma_hex_digits_injective(n / 16, m / 16);
    } else if n < 16 {
        assert(spec_hex_digits(n).len() == 1);
        assert(spec_hex_digits(m).len() == spec_hex_digits(m / 16).len() + 1);
        assert(spec_hex_digits(m / 16).len() >= 1);
    } else {
        assert(spec_hex_digits(m).len() == 1);
        assert(spec_hex_digits(n).len() == spec_hex_digits(n / 16).len() + 1);
        assert(spec_hex_digits(n / 16).len() >= 1);
    }
}

/// Page numbers render injectively.
pub proof fn lemma_page_number_injective(a: u32, b: u32)
    requires
        spec_page_number(a) == spec_page_number(b),
    ensures
        a == b,
{
    let da = spec_hex_digits(a as nat);
    let db = spec_hex_digits(b as nat);
    if da.len() == db.len() {
        if da.len() >= 4 {
            lemma_hex_digits_injective(a as nat, b as nat);
        } else {
            let pa = Seq::new((4 - da.len()) as nat, |i: int| '0');
            assert(spec_page_number(a) == pa + da);
            assert(spec_page_number(b) == pa + db);
            assert(da =~= db) by {
                assert forall|i: int| 0 <= i < da.len() implies da[i] == db[i] by {
                    assert(da[i] == (pa + da)[pa.len() + i]);
                    assert(db[i] == (pa + db)[pa.len() + i]);
                }
            }
            lemma_hex_digits_injective(a as nat, b as nat);
        }
    } else {
        let (lo, hi, dlo, dhi) = if da.len() < db.len() {
            (a, b, da, db)
        } else {
            (b, a, db, da)
        };
        assert(dlo.len() < dhi.len());
        assert(hi >= 16) by {
            if hi < 16 {
                assert(dhi.len() == 1);
                assert(dlo.len() >= 1);
            }
        }
        lemma_hex_digits_leading_nonzero(hi as nat);
        if dhi.len() >= 4 {
            assert(spec_page_number(hi as u32) == dhi);
            if dlo.len() >= 4 {
                assert(dlo.len() >= dhi.len());
            } else {
                let plo = Seq::new((4 - dlo.len()) as nat, |i: int| '0');
                assert(spec_page_number(lo as u32) == plo + dlo);
                assert((plo + dlo).len() == 4);
                assert(dhi.len() == 4);
                assert(dhi[0] == (plo + dlo)[0]);
                assert(plo.len() >= 1);
                assert((plo + dlo)[0] == '0');
            }
        } else {
            let phi = Seq::new((4 - dhi.len()) as nat, |i: int| '0');
            let plo = Seq::new((4 - dlo.len()) as nat, |i: int| '0');
            assert(spec_page_number(hi as u32) == phi + dhi);
            assert(spec_page_number(lo as u32) == plo + dlo);
            let pos = phi.len() as int;
            assert((phi + dhi)[pos] == dhi[0]);
            assert(pos < plo.len());
            assert((plo + dlo)[pos] == '0');
        }
    }
}

/// A page write never disturbs a property's metadata (page zero), and a
/// metadata write never disturbs a page, for pages one and above.
pub proof fn lemma_get_property_page_write_other(
    s: Seq<StateEntryV>,
    rid_w: Seq<char>,
    n_w: Seq<char>,
    page_w: u32,
    p_w: PropertyPageV,
    rid_g: Seq<char>,
    n_g: Seq<char>,
)
    requires
        page_w >= 1,
    ensures
        crate::state::spec_set_property_page(s, rid_w, n_w, page_w, p_w) matches Some(s2)
            ==> crate::state::spec_get_property(s2, rid_g, n_g)
            == crate::state::spec_get_property(s, rid_g, n_g),
{
    lemma_page_number_nonzero(page_w);
    lemma_property_page_addresses_differ(rid_w, n_w, page_w, rid_g, n_g, 0);
    let aw = spec_property_address(rid_w, n_w, page_w);
    match state_get(s, aw) {
        None => {
            lemma_get_property_state_other(
                s,
                aw,
                ContainerV::PropertyPages(put_with(Seq::<PropertyPageV>::empty(), n_w, p_w)),
                rid_g,
                n_g,
            );
        },
        Some(ContainerV::PropertyPages(list0)) => {
            lemma_get_property_state_other(
                s,
                aw,
                ContainerV::PropertyPages(put_with(list0, n_w, p_w)),
                rid_g,
                n_g,
            );
        },
        Some(_) => (),
    }
}

/// A write at any other address leaves a page lookup unchanged.
pub proof fn lemma_get_page_state_other(
    s: Seq<StateEntryV>,
    a_w: Seq<char>,
    c: ContainerV,
    rid: Seq<char>,
    n: Seq<char>,
    page: u32,
)
    requires
        a_w != spec_property_address(rid, n, page),
    ensures
        crate::state::spec_get_property_page(state_set(s, a_w, c), rid, n, page)
            == crate::state::spec_get_property_page(s, rid, n, page),
{
    lemma_state_get_set_other(s, a_w, c, spec_property_address(rid, n, page));
}

/// A metadata write never disturbs a page lookup, for pages one and
/// above.
pub proof fn lemma_get_page_property_write(
    s: Seq<StateEntryV>,
    rid_w: Seq<char>,
    n_w: Seq<char>,
    p_w: PropertyV,
    rid_g: Seq<char>,
    n_g: Seq<char>,
    page: u32,
)
    requires
        page >= 1,
    ensures
        crate::state::spec_set_property(s, rid_w, n_w, p_w) matches Some(s2)
            ==> crate::state::spec_get_property_page(s2, rid_g, n_g, page)
            == crate::state::spec_get_property_page(s, rid_g, n_g, page),
{
    lemma_page_number_nonzero(page);
    lemma_property_page_addresses_differ(rid_w, n_w, 0, rid_g, n_g, page);
    let aw = spec_property_address(rid_w, n_w, 0);
    match state_get(s, aw) {
        None => {
            lemma_get_page_state_other(
                s,
                aw,
                ContainerV::Properties(put_with(Seq::<PropertyV>::empty(), n_w, p_w)),
                rid_g,
                n_g,
                page,
            );
        },
        Some(ContainerV::Properties(list0)) => {
            lemma_get_page_state_other(
                s,
                aw,
                ContainerV::Properties(put_with(list0, n_w, p_w)),
                rid_g,
                n_g,
                page,
            );
        },
        Some(_) => (),
    }
}

/// A page write at one page number never disturbs a page lookup at
/// another.
pub proof fn lemma_get_page_page_write_other(
    s: Seq<StateEntryV>,
    rid_w: Seq<char>,
    n_w: Seq<char>,
    page_w: u32,
    p_w: PropertyPageV,
    rid_g: Seq<char>,
    n_g: Seq<char>,
    page_g: u32,
)
    requires
        page_w != page_g,
    ensures
        crate::state::spec_set_property_page(s, rid_w, n_w, page_w, p_w) matches Some(s2)
            ==> crate::state::spec_get_property_page(s2, rid_g, n_g, page_g)
            == crate::state::spec_get_property_page(s, rid_g, n_g, page_g),
{
    assert(spec_page_number(page_w) != spec_page_number(page_g)) by {
        if spec_page_number(page_w) == spec_page_number(page_g) {
            lemma_page_number_injective(page_w, page_g);
        }
    }
    lemma_property_page_addresses_differ(rid_w, n_w, page_w, rid_g, n_g, page_g);
    let aw = spec_property_address(rid_w, n_w, page_w);
    match state_get(s, aw) {
        None => {
            lemma_get_page_state_other(
                s,
                aw,
                ContainerV::PropertyPages(put_with(Seq::<PropertyPageV>::empty(), n_w, p_w)),
                rid_g,
                n_g,
                page_g,
            );
        },
        Some(ContainerV::PropertyPages(list0)) => {
            lemma_get_page_state_other(
                s,
                aw,
                ContainerV::PropertyPages(put_with(list0, n_w, p_w)),
                rid_g,
                n_g,
                page_g,
            );
        },
        Some(_) => (),
    }
}


/// The page ring stays within pages one to two hundred fifty-six, and
/// wraps to page one exactly from the last page.
pub proof fn law_ring_range(c: u32)
    requires
        1 <= c <= 256,
    ensures
        1 <= crate::records::next_page_number(c) <= 256,
        crate::records::next_page_number(c) == 1 <==> c == 256,
        crate::records::next_page_number(c) != c,
{
}

/// The paging ring, over one applied update: the reported value lands on
/// the current page, kept sorted; when the page reaches the cap, the
/// property moves to the next page of the ring — page one again after
/// page two hundred fifty-six, setting `wrapped` for good — and the
/// target page starts empty. Below the cap the property is untouched.
pub proof fn law_page_ring(
    s: Seq<StateEntryV>,
    u: crate::entities::PropertyValueV,
    record_id: Seq<char>,
    signer: Seq<char>,
    timestamp: u64,
)
    requires
        wf_state(s),
    ensures
        ({
            let st = crate::records::update_fold(s, seq![u], 0, record_id, signer, timestamp);
            st.err is None ==> match crate::state::spec_get_property(s, record_id, u.name) {
                Lookup::Found(prop) => 1 <= prop.current_page <= 256
                    ==> match crate::state::spec_get_property_page(
                    s,
                    record_id,
                    u.name,
                    prop.current_page,
                ) {
                    Lookup::Found(page) => match crate::records::reporter_idx(
                        prop.reporters,
                        signer,
                    ) {
                        Some(ri) => match crate::records::spec_make_reported_value(
                            prop.reporters[ri].index,
                            timestamp,
                            u,
                            prop,
                        ) {
                            Some(rv) => ({
                                let vals = crate::records::insert_reported(
                                    page.reported_values,
                                    rv,
                                );
                                let npn = crate::records::next_page_number(prop.current_page);
                                &&& vals.len() == page.reported_values.len() + 1
                                &&& crate::state::spec_get_property_page(
                                    st.state,
                                    record_id,
                                    u.name,
                                    prop.current_page,
                                ) == Lookup::<PropertyPageV>::Found(
                                    PropertyPageV { reported_values: vals, ..page },
                                )
                                &&& (vals.len() < 256
                                    ==> crate::state::spec_get_property(st.state, record_id, u.name)
                                    == Lookup::<PropertyV>::Found(prop))
                                &&& (vals.len() >= 256 ==> ({
                                    &&& crate::state::spec_get_property(
                                        st.state,
                                        record_id,
                                        u.name,
                                    ) == Lookup::<PropertyV>::Found(
                                        PropertyV {
                                            current_page: npn,
                                            wrapped: if npn == 1 && !prop.wrapped {
                                                true
                                            } else {
                                                prop.wrapped
                                            },
                                            ..prop
                                        },
                                    )
                                    &&& match crate::state::spec_get_property_page(
                                        st.state,
                                        record_id,
                                        u.name,
                                        npn,
                                    ) {
                                        Lookup::Found(p2) => p2.reported_values.len() == 0,
                                        _ => false,
                                    }
                                }))
                            }),
                            None => true,
                        },
                        None => true,
                    },
                    _ => true,
                },
                _ => true,
            }
        }),
{
    reveal_with_fuel(crate::records::update_fold, 3);
    let st = crate::records::update_fold(s, seq![u], 0, record_id, signer, timestamp);
    assert(seq![u][0] == u);
    lemma_get_property_name(s, record_id, u.name);
    match crate::state::spec_get_property(s, record_id, u.name) {
        Lookup::Found(prop) => {
            if 1 <= prop.current_page <= 256 {
                let c = prop.current_page;
                lemma_get_property_page_name(s, record_id, u.name, c);
                match crate::state::spec_get_property_page(s, record_id, u.name, c) {
                    Lookup::Found(page) => {
                        match crate::records::reporter_idx(prop.reporters, signer) {
                            Some(ri) => {
                                if u.data_type == prop.data_type {
                                    match crate::records::spec_make_reported_value(
                                        prop.reporters[ri].index,
                                        timestamp,
                                        u,
                                        prop,
                                    ) {
                                        Some(rv) => {
                                            let vals = crate::records::insert_reported(
                                                page.reported_values,
                                                rv,
                                            );
                                            crate::records::lemma_rv_insert_pos(
                                                page.reported_values,
                                                rv,
                                            );
                                            let page1 = PropertyPageV {
                                                reported_values: vals,
                                                ..page
                                            };
                                            lemma_set_property_page_wf(
                                                s,
                                                record_id,
                                                u.name,
                                                c,
                                                page1,
                                            );
                                            law_property_page_round_trip(
                                                s,
                                                record_id,
                                                u.name,
                                                c,
                                                page1,
                                            );
                                            match crate::state::spec_set_property_page(
                                                s,
                                                record_id,
                                                u.name,
                                                c,
                                                page1,
                                            ) {
                                                None => (),
                                                Some(s1) => {
                                                    lemma_get_property_page_write_other(
                                                        s,
                                                        record_id,
                                                        u.name,
                                                        c,
                                                        page1,
                                                        record_id,
                                                        u.name,
                                                    );
                                                    if vals.len() >= 256 {
                                                        let npn =
                                                            crate::records::next_page_number(c);
                                                        law_ring_range(c);
                                                        lemma_get_property_page_name(
                                                            s1,
                                                            record_id,
                                                            u.name,
                                                            npn,
                                                        );
                                                        let target = match crate::state::spec_get_property_page(
                                                            s1,
                                                            record_id,
                                                            u.name,
                                                            npn,
                                                        ) {
                                                            Lookup::Corrupt => None,
                                                            Lookup::Found(p2) => Some(
                                                                PropertyPageV {
                                                                    reported_values: Seq::empty(),
                                                                    ..p2
                                                                },
                                                            ),
                                                            Lookup::Missing => Some(
                                                                PropertyPageV {
                                                                    name: u.name,
                                                                    record_id,
                                                                    reported_values: Seq::empty(),
                                                                },
                                                            ),
                                                        };
                                                        match target {
                                                            None => (),
                                                            Some(t) => {
                                                                lemma_set_property_page_wf(
                                                                    s1,
                                                                    record_id,
                                                                    u.name,
                                                                    npn,
                                                                    t,
                                                                );
                                                                law_property_page_round_trip(
                                                                    s1,
                                                                    record_id,
                                                                    u.name,
                                                                    npn,
                                                                    t,
                                                                );
                                                                lemma_get_page_page_write_other(
                                                                    s1,
                                                                    record_id,
                                                                    u.name,
                                                                    npn,
                                                                    t,
                                                                    record_id,
                                                                    u.name,
                                                                    c,
                                                                );
                                                                lemma_get_property_page_write_other(
                                                                    s1,
                                                                    record_id,
                                                                    u.name,
                                                                    npn,
                                                                    t,
                                                                    record_id,
                                                                    u.name,
                                                                );
                                                                match crate::state::spec_set_property_page(
                                                                    s1,
                                                                    record_id,
                                                                    u.name,
                                                                    npn,
                                                                    t,
                                                                ) {
                                                                    None => (),
                                                                    Some(s2) => {
                                                                        let prop2 = PropertyV {
                                                                            current_page: npn,
                                                                            wrapped: if npn == 1
                                                                                && !prop.wrapped {
                                                                                true
                                                                            } else {
                                                                                prop.wrapped
                                                                            },
                                                                            ..prop
                                                                        };
                                                                        lemma_set_property_wf(
                                                                            s2,
                                                                            record_id,
                                                                            u.name,
                                                                            prop2,
                                                                        );
                                                                        law_property_round_trip(
                                                                            s2,
                                                                            record_id,
                                                                            u.name,
                                                                            prop2,
                                                                        );
                                                                        lemma_get_page_property_write(
                                                                            s2,
                                                                            record_id,
                                                                            u.name,
                                                                            prop2,
                                                                            record_id,
                                                                            u.name,
                                                                            c,
                                                                        );
                                                                        lemma_get_page_property_write(
                                                                            s2,
                                                                            record_id,
                                                                            u.name,
                                                                            prop2,
                                                                            record_id,
                                                                            u.name,
                                                                            npn,
                                                                        );
                                                                    },
                                                                }
                                                            },
                                                        }
                                                    }
                                                },
                                            }
                                        },
                                        None => (),
                                    }
                                }
                            },
                            None => (),
                        }
                    },
                    _ => (),
                }
            }
        },
        _ => (),
    }
}


/// A write at any other address leaves a proposal-container lookup
/// unchanged.
pub proof fn lemma_get_proposals_state_other(
    s: Seq<StateEntryV>,
    a_w: Seq<char>,
    c: ContainerV,
    rid: Seq<char>,
    aid: Seq<char>,
)
    requires
        a_w != spec_proposal_address(rid, aid),
    ensures
        crate::state::spec_get_proposals(state_set(s, a_w, c), rid, aid)
            == crate::state::spec_get_proposals(s, rid, aid),
{
    lemma_state_get_set_other(s, a_w, c, spec_proposal_address(rid, aid));
}

/// Writing a record leaves every property, page, and proposal lookup
/// unchanged: their addresses carry other kind tags.
pub proof fn lemma_record_write_frame(
    s: Seq<StateEntryV>,
    rid_w: Seq<char>,
    r_w: RecordV,
    rid: Seq<char>,
    n: Seq<char>,
    page: u32,
    prid: Seq<char>,
    paid: Seq<char>,
)
    ensures
        crate::state::spec_set_record(s, rid_w, r_w) matches Some(s2) ==> ({
            &&& crate::state::spec_get_property(s2, rid, n) == crate::state::spec_get_property(
                s,
                rid,
                n,
            )
            &&& crate::state::spec_get_property_page(s2, rid, n, page)
                == crate::state::spec_get_property_page(s, rid, n, page)
            &&& crate::state::spec_get_proposals(s2, prid, paid)
                == crate::state::spec_get_proposals(s, prid, paid)
        }),
{
    let aw = spec_record_address(rid_w);
    lemma_property_address_distinct(rid, n, 0, rid_w, rid_w);
    lemma_property_address_distinct(rid, n, page, rid_w, rid_w);
    assert(aw != spec_proposal_address(prid, paid)) by {
        lemma_spec_hash_len("supply_chain"@, 6);
        reveal_strlit("aa");
        reveal_strlit("ec");
        assert(spec_proposal_address(prid, paid)[6] == 'a');
        assert(aw[6] == 'e');
    }
    match state_get(s, aw) {
        None => {
            let c = ContainerV::Records(put_with(Seq::<RecordV>::empty(), rid_w, r_w));
            lemma_get_property_state_other(s, aw, c, rid, n);
            lemma_get_page_state_other(s, aw, c, rid, n, page);
            lemma_get_proposals_state_other(s, aw, c, prid, paid);
        },
        Some(ContainerV::Records(list0)) => {
            let c = ContainerV::Records(put_with(list0, rid_w, r_w));
            lemma_get_property_state_other(s, aw, c, rid, n);
            lemma_get_page_state_other(s, aw, c, rid, n, page);
            lemma_get_proposals_state_other(s, aw, c, prid, paid);
        },
        Some(_) => (),
    }
}

/// Finalizing a record touches only the record's own container: every
/// property, every page, and every proposal container reads back
/// unchanged.
pub proof fn law_finalize_frame(
    s: Seq<StateEntryV>,
    a: crate::payload::FinalizeRecordActionV,
    signer: Seq<char>,
    rid: Seq<char>,
    n: Seq<char>,
    page: u32,
    prid: Seq<char>,
    paid: Seq<char>,
)
    ensures
        ({
            let st = crate::handler::spec_finalize_record(s, a, signer);
            &&& crate::state::spec_get_property(st.state, rid, n)
                == crate::state::spec_get_property(s, rid, n)
            &&& crate::state::spec_get_property_page(st.state, rid, n, page)
                == crate::state::spec_get_property_page(s, rid, n, page)
            &&& crate::state::spec_get_proposals(st.state, prid, paid)
                == crate::state::spec_get_proposals(s, prid, paid)
        }),
{
    match crate::state::spec_get_record(s, a.record_id) {
        Lookup::Found(r) => {
            lemma_record_write_frame(
                s,
                a.record_id,
                RecordV { field_final: true, ..r },
                rid,
                n,
                page,
                prid,
                paid,
            );
        },
        _ => (),
    }
}

/// The answered proposal, closed with the given status.
pub open spec fn closed_as(cur: ProposalV, t: crate::entities::ProposalStatus) -> ProposalV {
    ProposalV { status: t, ..cur }
}

/// A proposal transitions once, terminally: a successful answer takes
/// the unique open proposal for the triple from open to a terminal
/// status, replaces exactly that entry (re-sorted into place), and
/// leaves every other proposal of the container as it was.
pub proof fn law_proposal_single_transition(
    s: Seq<StateEntryV>,
    a: crate::payload::AnswerProposalActionV,
    signer: Seq<char>,
    timestamp: u64,
)
    requires
        wf_state(s),
    ensures
        ({
            let st = crate::proposals::spec_answer_proposal(s, a, signer, timestamp);
            st.err is None ==> match crate::state::spec_get_proposals(
                s,
                a.record_id,
                a.receiving_agent,
            ) {
                Lookup::Found(list) => crate::proposals::open_prop_idx(
                    list,
                    a.record_id,
                    a.receiving_agent,
                    a.role,
                ) matches Some(pi) && ({
                    &&& list[pi].status == crate::entities::ProposalStatus::Open
                    &&& exists|t: crate::entities::ProposalStatus|
                        t != crate::entities::ProposalStatus::Open
                            && crate::state::spec_get_proposals(
                            st.state,
                            a.record_id,
                            a.receiving_agent,
                        ) == Lookup::<Seq<ProposalV>>::Found(
                            crate::proposals::replace_proposal(
                                list,
                                pi,
                                #[trigger] closed_as(list[pi], t),
                            ),
                        )
                }),
                _ => false,
            }
        }),
{
    let st = crate::proposals::spec_answer_proposal(s, a, signer, timestamp);
    match crate::state::spec_get_proposals(s, a.record_id, a.receiving_agent) {
        Lookup::Found(list) => {
            if list.len() > 0 {
                crate::proposals::lemma_open_prop_idx(list, a.record_id, a.receiving_agent, a.role);
                match crate::proposals::open_prop_idx(list, a.record_id, a.receiving_agent, a.role) {
                    Some(pi) => {
                        let cur = list[pi];
                        let canceled = ProposalV {
                            status: crate::entities::ProposalStatus::Canceled,
                            ..cur
                        };
                        let rejected = ProposalV {
                            status: crate::entities::ProposalStatus::Rejected,
                            ..cur
                        };
                        let accepted = ProposalV {
                            status: crate::entities::ProposalStatus::Accepted,
                            ..cur
                        };
                        law_proposals_round_trip(
                            s,
                            a.record_id,
                            a.receiving_agent,
                            crate::proposals::replace_proposal(list, pi, canceled),
                        );
                        law_proposals_round_trip(
                            s,
                            a.record_id,
                            a.receiving_agent,
                            crate::proposals::replace_proposal(list, pi, rejected),
                        );
                        if st.err is None {
                            match a.response {
                                crate::payload::Response::Cancel => {
                                    assert(closed_as(
                                        list[pi],
                                        crate::entities::ProposalStatus::Canceled,
                                    ) == canceled);
                                    assert(crate::state::spec_get_proposals(
                                        st.state,
                                        a.record_id,
                                        a.receiving_agent,
                                    ) == Lookup::<Seq<ProposalV>>::Found(
                                        crate::proposals::replace_proposal(list, pi, canceled),
                                    ));
                                },
                                crate::payload::Response::Reject => {
                                    assert(closed_as(
                                        list[pi],
                                        crate::entities::ProposalStatus::Rejected,
                                    ) == rejected);
                                    assert(crate::state::spec_get_proposals(
                                        st.state,
                                        a.record_id,
                                        a.receiving_agent,
                                    ) == Lookup::<Seq<ProposalV>>::Found(
                                        crate::proposals::replace_proposal(list, pi, rejected),
                                    ));
                                },
                                crate::payload::Response::Accept => {
                                    lemma_accept_single_transition(
                                        s,
                                        a,
                                        signer,
                                        timestamp,
                                        list,
                                        pi,
                                        cur,
                                    );
                                },
                            }
                        }
                    },
                    None => (),
                }
            }
        },
        _ => (),
    }
}

/// The accept branch closes the answered proposal terminally.
proof fn lemma_accept_single_transition(
    s: Seq<StateEntryV>,
    a: crate::payload::AnswerProposalActionV,
    signer: Seq<char>,
    timestamp: u64,
    list: Seq<ProposalV>,
    pi: int,
    cur: ProposalV,
)
    requires
        wf_state(s),
        0 <= pi < list.len(),
    ensures
        ({
            let st = crate::proposals::spec_accept_proposal(s, a, signer, timestamp, list, pi, cur);
            st.err is None ==> exists|t: crate::entities::ProposalStatus|
                t != crate::entities::ProposalStatus::Open && crate::state::spec_get_proposals(
                    st.state,
                    a.record_id,
                    a.receiving_agent,
                ) == Lookup::<Seq<ProposalV>>::Found(
                    crate::proposals::replace_proposal(
                        list,
                        pi,
                        #[trigger] closed_as(cur, t),
                    ),
                )
        }),
{
    let st = crate::proposals::spec_accept_proposal(s, a, signer, timestamp, list, pi, cur);
    let canceled = ProposalV { status: crate::entities::ProposalStatus::Canceled, ..cur };
    let accepted = ProposalV { status: crate::entities::ProposalStatus::Accepted, ..cur };
    assert(closed_as(cur, crate::entities::ProposalStatus::Canceled) == canceled);
    assert(closed_as(cur, crate::entities::ProposalStatus::Accepted) == accepted);
    match crate::state::spec_get_record(s, a.record_id) {
        Lookup::Found(rec) => {
            if rec.owners.len() > 0 && rec.custodians.len() > 0 {
                let owner = rec.owners.last();
                let custodian = rec.custodians.last();
                match a.role {
                    crate::entities::Role::Owner => {
                        if owner.agent_id != cur.issuing_agent {
                            law_proposals_round_trip(
                                s,
                                a.record_id,
                                a.receiving_agent,
                                crate::proposals::replace_proposal(list, pi, canceled),
                            );
                        } else {
                            let rec2 = RecordV {
                                owners: rec.owners.push(
                                    crate::entities::AssociatedAgentV {
                                        agent_id: a.receiving_agent,
                                        timestamp,
                                    },
                                ),
                                ..rec
                            };
                            match crate::state::spec_set_record(s, a.record_id, rec2) {
                                None => (),
                                Some(s1) => match crate::state::spec_get_record_type(
                                    s1,
                                    rec.record_type,
                                ) {
                                    Lookup::Found(rt) => {
                                        let fs = crate::proposals::owner_accept_fold(
                                            s1,
                                            rt.properties,
                                            0,
                                            a.record_id,
                                            owner.agent_id,
                                            a.receiving_agent,
                                        );
                                        if fs.err is None {
                                            law_proposals_round_trip(
                                                fs.state,
                                                a.record_id,
                                                a.receiving_agent,
                                                crate::proposals::replace_proposal(
                                                    list,
                                                    pi,
                                                    accepted,
                                                ),
                                            );
                                        }
                                    },
                                    _ => (),
                                },
                            }
                        }
                    },
                    crate::entities::Role::Custodian => {
                        if custodian.agent_id != cur.issuing_agent {
                            law_proposals_round_trip(
                                s,
                                a.record_id,
                                a.receiving_agent,
                                crate::proposals::replace_proposal(list, pi, canceled),
                            );
                        } else {
                            let rec2 = RecordV {
                                custodians: rec.custodians.push(
                                    crate::entities::AssociatedAgentV {
                                        agent_id: a.receiving_agent,
                                        timestamp,
                                    },
                                ),
                                ..rec
                            };
                            match crate::state::spec_set_record(s, a.record_id, rec2) {
                                None => (),
                                Some(s1) => {
                                    law_proposals_round_trip(
                                        s1,
                                        a.record_id,
                                        a.receiving_agent,
                                        crate::proposals::replace_proposal(list, pi, accepted),
                                    );
                                },
                            }
                        }
                    },
                    crate::entities::Role::Reporter => {
                        if owner.agent_id != cur.issuing_agent {
                            law_proposals_round_trip(
                                s,
                                a.record_id,
                                a.receiving_agent,
                                crate::proposals::replace_proposal(list, pi, canceled),
                            );
                        } else {
                            let fs = crate::proposals::reporter_accept_fold(
                                s,
                                cur.properties,
                                0,
                                a.record_id,
                                a.receiving_agent,
                            );
                            if fs.err is None {
                                law_proposals_round_trip(
                                    fs.state,
                                    a.record_id,
                                    a.receiving_agent,
                                    crate::proposals::replace_proposal(list, pi, accepted),
                                );
                            }
                        }
                    },
                }
            }
        },
        _ => (),
    }
}

} // verus!
