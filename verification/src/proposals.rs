//! Proposals: offering and answering role transfers, and revoking
//! reporters.
//!
//! A proposal container is sorted by (record id, receiving agent,
//! timestamp). At most one open proposal exists per (record, receiving
//! agent, role); answering one closes it terminally.

use vstd::prelude::*;

use crate::containers::views_of;
use crate::entities::{
    AssociatedAgent, AssociatedAgentV, Property, PropertyV, Proposal, ProposalStatus, ProposalV,
    Record, RecordV, Reporter, ReporterV, Role,
};
use crate::errors::ApplyError;
use crate::payload::{
    AnswerProposalAction, AnswerProposalActionV, CreateProposalAction, CreateProposalActionV,
    Response, RevokeReporterAction, RevokeReporterActionV,
};
use crate::state::{
    spec_get_agent, spec_get_property, spec_get_proposals, spec_get_record, spec_get_record_type,
    spec_set_property, spec_set_proposals, spec_set_record, step_internal, step_invalid,
    step_matches, step_ok, Lookup, Step, SupplyChainState,
};
use crate::strings_order::{lex_le, str_eq, str_le};

verus! {

/// A string strictly precedes another in lexicographic order.
pub open spec fn str_lt(a: Seq<char>, b: Seq<char>) -> bool {
    lex_le(a, b) && a != b
}

/// Proposals are ordered by record id, then receiving agent, then
/// timestamp.
pub open spec fn proposal_le(a: ProposalV, b: ProposalV) -> bool {
    str_lt(a.record_id, b.record_id) || (a.record_id == b.record_id && (str_lt(
        a.receiving_agent,
        b.receiving_agent,
    ) || (a.receiving_agent == b.receiving_agent && a.timestamp <= b.timestamp)))
}

/// Where a new proposal lands: after every proposal that does not exceed
/// it, as a stable sort after an append would place it.
pub open spec fn proposal_insert_pos(list: Seq<ProposalV>, p: ProposalV) -> int
    decreases list.len(),
{
    if list.len() == 0 {
        0
    } else if proposal_le(list[0], p) {
        1 + proposal_insert_pos(list.drop_first(), p)
    } else {
        0
    }
}

/// `proposal_insert_pos` is the first index whose proposal exceeds the
/// new one, or the length.
pub proof fn lemma_proposal_insert_pos(list: Seq<ProposalV>, p: ProposalV)
    ensures
        0 <= proposal_insert_pos(list, p) <= list.len(),
        forall|j: int| 0 <= j < proposal_insert_pos(list, p) ==> proposal_le(
            #[trigger] list[j],
            p,
        ),
        proposal_insert_pos(list, p) < list.len() ==> !proposal_le(
            list[proposal_insert_pos(list, p)],
            p,
        ),
    decreases list.len(),
{
    if list.len() > 0 && proposal_le(list[0], p) {
        lemma_proposal_insert_pos(list.drop_first(), p);
        assert forall|j: int| 1 <= j < list.len() implies list[j] == list.drop_first()[j - 1] by {
            assert(list.drop_first()[j - 1] == list[j]);
        }
    }
}

/// A proposal container with the new proposal at its sorted position.
pub open spec fn proposal_insert(list: Seq<ProposalV>, p: ProposalV) -> Seq<ProposalV> {
    list.insert(proposal_insert_pos(list, p), p)
}

/// Decides the proposal order on executable values.
pub fn proposal_le_exec(a: &Proposal, b: &Proposal) -> (r: bool)
    ensures
        r == proposal_le(a@, b@),
{
    let rid_le = str_le(a.record_id.as_str(), b.record_id.as_str());
    let rid_eq = str_eq(a.record_id.as_str(), b.record_id.as_str());
    if rid_le && !rid_eq {
        return true;
    }
    if !rid_eq {
        return false;
    }
    let ra_le = str_le(a.receiving_agent.as_str(), b.receiving_agent.as_str());
    let ra_eq = str_eq(a.receiving_agent.as_str(), b.receiving_agent.as_str());
    if ra_le && !ra_eq {
        return true;
    }
    if !ra_eq {
        return false;
    }
    a.timestamp <= b.timestamp
}

/// Inserts a proposal at its sorted position in a container.
pub fn insert_proposal_sorted(v: &mut Vec<Proposal>, p: Proposal)
    ensures
        views_of(final(v)@) == proposal_insert(views_of(old(v)@), p@),
{
    let ghost vs = views_of(old(v)@);
    let mut pos: usize = 0;
    loop
        invariant
            pos <= v@.len(),
            *v == *old(v),
            vs == views_of(old(v)@),
            forall|j: int| 0 <= j < pos ==> proposal_le((#[trigger] vs[j]), p@),
        ensures
            pos <= v@.len(),
            *v == *old(v),
            vs == views_of(old(v)@),
            forall|j: int| 0 <= j < pos ==> proposal_le((#[trigger] vs[j]), p@),
            pos < v@.len() ==> !proposal_le(vs[pos as int], p@),
        decreases v@.len() - pos,
    {
        if pos >= v.len() {
            break ;
        }
        if !proposal_le_exec(&v[pos], &p) {
            break ;
        }
        pos += 1;
    }
    proof {
        lemma_proposal_insert_pos(vs, p@);
        assert(proposal_insert_pos(vs, p@) == pos as int);
    }
    v.insert(pos, p);
    proof {
        crate::containers::lemma_views_of_insert(old(v)@, pos as int, p);
        assert(views_of(final(v)@) =~= proposal_insert(vs, p@));
    }
}

/// An open proposal for this (record, receiving agent, role) triple is
/// already in the container.
pub open spec fn open_dup_exists(
    list: Seq<ProposalV>,
    record_id: Seq<char>,
    receiving: Seq<char>,
    role: Role,
) -> bool {
    exists|j: int|
        0 <= j < list.len() && (#[trigger] list[j]).status == ProposalStatus::Open
            && list[j].receiving_agent == receiving && list[j].role == role && list[j].record_id
            == record_id
}

/// The least index of an open proposal for the triple, if any.
pub open spec fn open_prop_idx(
    list: Seq<ProposalV>,
    record_id: Seq<char>,
    receiving: Seq<char>,
    role: Role,
) -> Option<int>
    decreases list.len(),
{
    if list.len() == 0 {
        None
    } else if list[0].receiving_agent == receiving && list[0].role == role && list[0].record_id
        == record_id && list[0].status == ProposalStatus::Open {
        Some(0int)
    } else {
        match open_prop_idx(list.drop_first(), record_id, receiving, role) {
            Some(i) => Some(i + 1),
            None => None,
        }
    }
}

/// `open_prop_idx` returns the least matching index, or none.
pub proof fn lemma_open_prop_idx(
    list: Seq<ProposalV>,
    record_id: Seq<char>,
    receiving: Seq<char>,
    role: Role,
)
    ensures
        match open_prop_idx(list, record_id, receiving, role) {
            Some(i) => 0 <= i < list.len() && list[i].receiving_agent == receiving && list[i].role
                == role && list[i].record_id == record_id && list[i].status == ProposalStatus::Open
                && forall|j: int|
                0 <= j < i ==> !((#[trigger] list[j]).receiving_agent == receiving && list[j].role
                    == role && list[j].record_id == record_id && list[j].status
                    == ProposalStatus::Open),
            None => forall|j: int|
                0 <= j < list.len() ==> !((#[trigger] list[j]).receiving_agent == receiving
                    && list[j].role == role && list[j].record_id == record_id && list[j].status
                    == ProposalStatus::Open),
        },
    decreases list.len(),
{
    if list.len() > 0 && !(list[0].receiving_agent == receiving && list[0].role == role
        && list[0].record_id == record_id && list[0].status == ProposalStatus::Open) {
        lemma_open_prop_idx(list.drop_first(), record_id, receiving, role);
        assert forall|j: int| 1 <= j < list.len() implies list[j] == list.drop_first()[j - 1] by {
            assert(list.drop_first()[j - 1] == list[j]);
        }
    }
}

/// Finds the first open proposal for the triple.
pub fn find_open_proposal(
    v: &Vec<Proposal>,
    record_id: &str,
    receiving: &str,
    role: Role,
) -> (r: Option<usize>)
    ensures
        match r {
            Some(j) => j < v@.len() && open_prop_idx(views_of(v@), record_id@, receiving@, role)
                == Some(j as int),
            None => open_prop_idx(views_of(v@), record_id@, receiving@, role) is None,
        },
{
    let ghost vs = views_of(v@);
    let mut i: usize = 0;
    while i < v.len()
        invariant
            i <= v@.len(),
            vs == views_of(v@),
            forall|j: int|
                0 <= j < i ==> !((#[trigger] vs[j]).receiving_agent == receiving@ && vs[j].role
                    == role && vs[j].record_id == record_id@ && vs[j].status
                    == ProposalStatus::Open),
        decreases v@.len() - i,
    {
        let p = &v[i];
        if str_eq(p.receiving_agent.as_str(), receiving) && p.role == role && str_eq(
            p.record_id.as_str(),
            record_id,
        ) && p.status == ProposalStatus::Open {
            proof {
                assert(vs[i as int].receiving_agent == receiving@ && vs[i as int].role == role
                    && vs[i as int].record_id == record_id@ && vs[i as int].status
                    == ProposalStatus::Open);
                lemma_open_prop_idx(vs, record_id@, receiving@, role);
                assert(open_prop_idx(vs, record_id@, receiving@, role) == Some(i as int));
            }
            return Some(i);
        }
        i += 1;
    }
    proof {
        lemma_open_prop_idx(vs, record_id@, receiving@, role);
    }
    None
}

/// Creating a proposal: both agents must be registered, the record must
/// exist and not be final, no open proposal for the same triple may
/// exist, and the signer must hold the role being offered (owner for
/// ownership and reporter proposals, custodian for custodianship).
pub open spec fn spec_create_proposal(
    s: Seq<crate::state::StateEntryV>,
    a: CreateProposalActionV,
    signer: Seq<char>,
    timestamp: u64,
) -> Step {
    match spec_get_agent(s, signer) {
        Lookup::Corrupt => step_internal(s),
        Lookup::Missing => step_invalid(s),
        Lookup::Found(_) => match spec_get_agent(s, a.receiving_agent) {
            Lookup::Corrupt => step_internal(s),
            Lookup::Missing => step_invalid(s),
            Lookup::Found(_) => {
                let list = match spec_get_proposals(s, a.record_id, a.receiving_agent) {
                    Lookup::Corrupt => None,
                    Lookup::Missing => Some(Seq::<ProposalV>::empty()),
                    Lookup::Found(l) => Some(l),
                };
                match list {
                    None => step_internal(s),
                    Some(list) => {
                        if open_dup_exists(list, a.record_id, a.receiving_agent, a.role) {
                            step_invalid(s)
                        } else {
                            match spec_get_record(s, a.record_id) {
                                Lookup::Corrupt => step_internal(s),
                                Lookup::Missing => step_invalid(s),
                                Lookup::Found(r) => {
                                    if r.field_final {
                                        step_invalid(s)
                                    } else if (a.role == Role::Owner || a.role == Role::Reporter)
                                        && (r.owners.len() == 0 || r.owners.last().agent_id
                                        != signer) {
                                        step_invalid(s)
                                    } else if a.role == Role::Custodian && (r.custodians.len() == 0
                                        || r.custodians.last().agent_id != signer) {
                                        step_invalid(s)
                                    } else {
                                        let new_p = ProposalV {
                                            record_id: a.record_id,
                                            timestamp,
                                            issuing_agent: signer,
                                            receiving_agent: a.receiving_agent,
                                            role: a.role,
                                            properties: a.properties,
                                            status: ProposalStatus::Open,
                                        };
                                        step_ok(
                                            spec_set_proposals(
                                                s,
                                                a.record_id,
                                                a.receiving_agent,
                                                proposal_insert(list, new_p),
                                            ),
                                        )
                                    }
                                },
                            }
                        }
                    },
                }
            },
        },
    }
}

/// Every reporter entry for the revoked key loses authorization; other
/// entries are unchanged.
pub open spec fn revoke_reporters(reps: Seq<ReporterV>, reporter_id: Seq<char>) -> Seq<ReporterV> {
    Seq::new(
        reps.len(),
        |j: int|
            if 0 <= j < reps.len() && reps[j].public_key == reporter_id {
                ReporterV { authorized: false, ..reps[j] }
            } else {
                reps[j]
            },
    )
}

/// The per-property tail of revocation: on each listed property, the
/// reporter must be present and authorized, and loses authorization.
pub open spec fn revoke_fold(
    s: Seq<crate::state::StateEntryV>,
    names: Seq<Seq<char>>,
    i: int,
    record_id: Seq<char>,
    reporter_id: Seq<char>,
) -> Step
    decreases names.len() - i,
{
    if i < 0 || i >= names.len() {
        step_ok(s)
    } else {
        match spec_get_property(s, record_id, names[i]) {
            Lookup::Corrupt => step_internal(s),
            Lookup::Missing => step_invalid(s),
            Lookup::Found(prop) => {
                if exists|j: int|
                    0 <= j < prop.reporters.len() && (#[trigger] prop.reporters[j]).public_key
                        == reporter_id && !prop.reporters[j].authorized {
                    step_invalid(s)
                } else if !exists|j: int|
                    0 <= j < prop.reporters.len() && (#[trigger] prop.reporters[j]).public_key
                        == reporter_id {
                    step_invalid(s)
                } else {
                    let prop2 = PropertyV {
                        reporters: revoke_reporters(prop.reporters, reporter_id),
                        ..prop
                    };
                    match spec_set_property(s, record_id, names[i], prop2) {
                        None => step_internal(s),
                        Some(s1) => revoke_fold(s1, names, i + 1, record_id, reporter_id),
                    }
                }
            },
        }
    }
}

/// Revoking a reporter: the record must exist and not be final, the
/// signer must be its current owner, and on every listed property the
/// reporter must currently be authorized.
pub open spec fn spec_revoke_reporter(
    s: Seq<crate::state::StateEntryV>,
    a: RevokeReporterActionV,
    signer: Seq<char>,
) -> Step {
    match spec_get_record(s, a.record_id) {
        Lookup::Corrupt => step_internal(s),
        Lookup::Missing => step_invalid(s),
        Lookup::Found(r) => {
            if r.owners.len() == 0 {
                step_invalid(s)
            } else if r.owners.last().agent_id != signer {
                step_invalid(s)
            } else if r.field_final {
                step_invalid(s)
            } else {
                revoke_fold(s, a.properties, 0, a.record_id, a.reporter_id)
            }
        },
    }
}

impl crate::handler::SupplyChainTransactionHandler {
    /// Offers a role on a record to a receiving agent.
    pub fn create_proposal(
        &self,
        payload: CreateProposalAction,
        state: &mut SupplyChainState,
        signer: &str,
        timestamp: u64,
    ) -> (r: Result<(), ApplyError>)
        ensures
            step_matches(
                spec_create_proposal(old(state)@, payload@, signer@, timestamp),
                final(state)@,
                r,
            ),
    {
        let ghost av = payload@;
        let record_id = payload.record_id.as_str();
        let receiving_agent = payload.receiving_agent.as_str();
        let role = payload.role;
        match state.get_agent(signer) {
            Ok(Some(_)) => (),
            Ok(None) => {
                return Err(
                    ApplyError::InvalidTransaction(
                        String::from_str("Issuing agent does not exist: ").concat(signer),
                    ),
                );
            },
            Err(err) => {
                return Err(err);
            },
        }
        match state.get_agent(receiving_agent) {
            Ok(Some(_)) => (),
            Ok(None) => {
                return Err(
                    ApplyError::InvalidTransaction(
                        String::from_str("Receiving agent does not exist: ").concat(
                            receiving_agent,
                        ),
                    ),
                );
            },
            Err(err) => {
                return Err(err);
            },
        }
        let mut proposals: Vec<Proposal> = match state.get_proposal_container(
            record_id,
            receiving_agent,
        ) {
            Ok(Some(proposals)) => proposals,
            Ok(None) => {
                let v: Vec<Proposal> = Vec::new();
                proof {
                    assert(views_of(v@) =~= Seq::<ProposalV>::empty());
                }
                v
            },
            Err(err) => {
                return Err(err);
            },
        };
        let ghost listv = views_of(proposals@);
        match find_open_proposal(&proposals, record_id, receiving_agent, role) {
            Some(j) => {
                proof {
                    lemma_open_prop_idx(listv, av.record_id, av.receiving_agent, av.role);
                    assert(listv[j as int].status == ProposalStatus::Open
                        && listv[j as int].receiving_agent == av.receiving_agent
                        && listv[j as int].role == av.role && listv[j as int].record_id
                        == av.record_id);
                    assert(open_dup_exists(listv, av.record_id, av.receiving_agent, av.role));
                }
                return Err(
                    ApplyError::InvalidTransaction(String::from_str("Proposal already exists")),
                );
            },
            None => {
                proof {
                    lemma_open_prop_idx(listv, av.record_id, av.receiving_agent, av.role);
                    assert(!open_dup_exists(listv, av.record_id, av.receiving_agent, av.role));
                }
            },
        }
        let proposal_record = match state.get_record(record_id) {
            Ok(Some(record)) => record,
            Ok(None) => {
                return Err(
                    ApplyError::InvalidTransaction(
                        String::from_str("Record does not exist: ").concat(record_id),
                    ),
                );
            },
            Err(err) => {
                return Err(err);
            },
        };
        if proposal_record.field_final {
            return Err(
                ApplyError::InvalidTransaction(
                    String::from_str("Record is final: ").concat(record_id),
                ),
            );
        }
        if role == Role::Owner || role == Role::Reporter {
            if proposal_record.owners.len() == 0 {
                return Err(ApplyError::InvalidTransaction(String::from_str("Owner not found")));
            }
            let owner = &proposal_record.owners[proposal_record.owners.len() - 1];
            if !str_eq(owner.agent_id.as_str(), signer) {
                return Err(
                    ApplyError::InvalidTransaction(
                        String::from_str(
                            "Only the owner can create a proposal to change ownership",
                        ),
                    ),
                );
            }
        }
        if role == Role::Custodian {
            if proposal_record.custodians.len() == 0 {
                return Err(
                    ApplyError::InvalidTransaction(String::from_str("Custodian not found")),
                );
            }
            let custodian = &proposal_record.custodians[proposal_record.custodians.len() - 1];
            if !str_eq(custodian.agent_id.as_str(), signer) {
                return Err(
                    ApplyError::InvalidTransaction(
                        String::from_str(
                            "Only the custodian can create a proposal to change custodianship",
                        ),
                    ),
                );
            }
        }
        let new_proposal = Proposal {
            record_id: payload.record_id.clone(),
            timestamp,
            issuing_agent: String::from_str(signer),
            receiving_agent: payload.receiving_agent.clone(),
            role,
            properties: payload.properties,
            status: ProposalStatus::Open,
        };
        proof {
            assert(new_proposal@.properties =~= av.properties);
            assert(new_proposal@ == ProposalV {
                record_id: av.record_id,
                timestamp,
                issuing_agent: signer@,
                receiving_agent: av.receiving_agent,
                role: av.role,
                properties: av.properties,
                status: ProposalStatus::Open,
            });
        }
        insert_proposal_sorted(&mut proposals, new_proposal);
        state.set_proposal_container(record_id, receiving_agent, proposals)?;
        Ok(())
    }

    /// Withdraws authorization from a reporter on the listed properties.
    #[verifier::loop_isolation(false)]
    pub fn revoke_reporter(
        &self,
        payload: RevokeReporterAction,
        state: &mut SupplyChainState,
        signer: &str,
    ) -> (r: Result<(), ApplyError>)
        ensures
            step_matches(spec_revoke_reporter(old(state)@, payload@, signer@), final(state)@, r),
    {
        let ghost av = payload@;
        proof {
            assert(av.properties =~= views_of(payload.properties@));
        }
        let record_id = payload.record_id.as_str();
        let reporter_id = payload.reporter_id.as_str();
        let revoke_record = match state.get_record(record_id) {
            Ok(Some(record)) => record,
            Ok(None) => {
                return Err(
                    ApplyError::InvalidTransaction(
                        String::from_str("Record does not exists: ").concat(record_id),
                    ),
                );
            },
            Err(err) => {
                return Err(err);
            },
        };
        if revoke_record.owners.len() == 0 {
            return Err(ApplyError::InvalidTransaction(String::from_str("Owner was not found")));
        }
        let owner = &revoke_record.owners[revoke_record.owners.len() - 1];
        if !str_eq(owner.agent_id.as_str(), signer) {
            return Err(
                ApplyError::InvalidTransaction(
                    String::from_str("Must be owner to revoke reporters"),
                ),
            );
        }
        if revoke_record.field_final {
            return Err(
                ApplyError::InvalidTransaction(
                    String::from_str("Record is final: ").concat(record_id),
                ),
            );
        }
        let ghost s0 = state@;
        let mut i: usize = 0;
        while i < payload.properties.len()
            invariant
                i <= payload.properties@.len(),
                revoke_fold(s0, av.properties, 0, av.record_id, av.reporter_id) == revoke_fold(
                    state@,
                    av.properties,
                    i as int,
                    av.record_id,
                    av.reporter_id,
                ),
            decreases payload.properties@.len() - i,
        {
            let prop_name = payload.properties[i].as_str();
            let mut prop = match state.get_property(record_id, prop_name) {
                Ok(Some(prop)) => prop,
                Ok(None) => {
                    return Err(
                        ApplyError::InvalidTransaction(
                            String::from_str("Property does not exists"),
                        ),
                    );
                },
                Err(err) => {
                    return Err(err);
                },
            };
            let ghost propv = prop@;
            proof {
                assert(propv.reporters =~= views_of(prop.reporters@));
            }
            let mut new_reporters: Vec<Reporter> = Vec::new();
            let mut revoked = false;
            let mut j: usize = 0;
            while j < prop.reporters.len()
                invariant
                    j <= prop.reporters@.len(),
                    new_reporters@.len() == j,
                    forall|l: int|
                        0 <= l < j ==> (#[trigger] new_reporters@[l]@) == revoke_reporters(
                            propv.reporters,
                            av.reporter_id,
                        )[l],
                    forall|l: int|
                        0 <= l < j ==> !((#[trigger] propv.reporters[l]).public_key
                            == av.reporter_id && !propv.reporters[l].authorized),
                    revoked == exists|l: int|
                        0 <= l < j && (#[trigger] propv.reporters[l]).public_key
                            == av.reporter_id,
                decreases prop.reporters@.len() - j,
            {
                let reporter = &prop.reporters[j];
                if str_eq(reporter.public_key.as_str(), reporter_id) {
                    if !reporter.authorized {
                        proof {
                            assert(propv.reporters[j as int].public_key == av.reporter_id
                                && !propv.reporters[j as int].authorized);
                        }
                        return Err(
                            ApplyError::InvalidTransaction(
                                String::from_str("Reporter is already unauthorized."),
                            ),
                        );
                    }
                    let unauthorized_reporter = Reporter {
                        public_key: reporter.public_key.clone(),
                        authorized: false,
                        index: reporter.index,
                    };
                    revoked = true;
                    new_reporters.push(unauthorized_reporter);
                    proof {
                        assert(new_reporters@[j as int]@ == revoke_reporters(
                            propv.reporters,
                            av.reporter_id,
                        )[j as int]);
                    }
                } else {
                    new_reporters.push(reporter.clone());
                    proof {
                        assert(new_reporters@[j as int]@ == revoke_reporters(
                            propv.reporters,
                            av.reporter_id,
                        )[j as int]);
                    }
                }
                j += 1;
            }
            if !revoked {
                proof {
                    assert(!exists|l: int|
                        0 <= l < propv.reporters.len()
                            && (#[trigger] propv.reporters[l]).public_key == av.reporter_id);
                }
                return Err(
                    ApplyError::InvalidTransaction(
                        String::from_str("Reporter cannot be revoked: ").concat(reporter_id),
                    ),
                );
            }
            prop.reporters = new_reporters;
            proof {
                assert(prop@.reporters =~= revoke_reporters(propv.reporters, av.reporter_id));
                assert(prop@ == PropertyV {
                    reporters: revoke_reporters(propv.reporters, av.reporter_id),
                    ..propv
                });
            }
            state.set_property(record_id, prop_name, prop)?;
            i += 1;
        }
        Ok(())
    }
}


/// The reporter list after an ownership transfer: entries keyed by the
/// prior owner lose authorization, entries keyed by the receiving agent
/// gain it, all others keep theirs.
pub open spec fn rebuild_reporters(
    reps: Seq<ReporterV>,
    old_owner: Seq<char>,
    receiving: Seq<char>,
) -> Seq<ReporterV> {
    Seq::new(
        reps.len(),
        |j: int|
            if reps[j].public_key == old_owner {
                ReporterV { authorized: false, ..reps[j] }
            } else if reps[j].public_key == receiving {
                ReporterV { authorized: true, ..reps[j] }
            } else {
                reps[j]
            },
    )
}

/// The receiving agent already holds a reporter entry that the rebuild
/// re-authorizes (one not claimed by the prior owner's key first).
pub open spec fn receiving_present(
    reps: Seq<ReporterV>,
    old_owner: Seq<char>,
    receiving: Seq<char>,
) -> bool {
    exists|j: int|
        0 <= j < reps.len() && (#[trigger] reps[j]).public_key == receiving && reps[j].public_key
            != old_owner
}

/// The per-property tail of an accepted ownership transfer: on every
/// schema property, the prior owner's reporter entries lose
/// authorization and the receiving agent's entry is authorized, appended
/// fresh when absent.
pub open spec fn owner_accept_fold(
    s: Seq<crate::state::StateEntryV>,
    props: Seq<crate::entities::PropertySchemaV>,
    i: int,
    record_id: Seq<char>,
    old_owner: Seq<char>,
    receiving: Seq<char>,
) -> Step
    decreases props.len() - i,
{
    if i < 0 || i >= props.len() {
        step_ok(s)
    } else {
        match spec_get_property(s, record_id, props[i].name) {
            Lookup::Corrupt => step_internal(s),
            Lookup::Missing => step_invalid(s),
            Lookup::Found(prop) => {
                let base = rebuild_reporters(prop.reporters, old_owner, receiving);
                let reps2 = if receiving_present(prop.reporters, old_owner, receiving) {
                    base
                } else {
                    base.push(
                        ReporterV {
                            public_key: receiving,
                            authorized: true,
                            index: prop.reporters.len() as u32,
                        },
                    )
                };
                match spec_set_property(
                    s,
                    record_id,
                    prop.name,
                    PropertyV { reporters: reps2, ..prop },
                ) {
                    None => step_internal(s),
                    Some(s1) => owner_accept_fold(s1, props, i + 1, record_id, old_owner, receiving),
                }
            },
        }
    }
}

/// The per-property tail of an accepted reporter proposal: on every
/// property the proposal lists, the receiving agent is appended as an
/// authorized reporter at the next index.
pub open spec fn reporter_accept_fold(
    s: Seq<crate::state::StateEntryV>,
    names: Seq<Seq<char>>,
    i: int,
    record_id: Seq<char>,
    receiving: Seq<char>,
) -> Step
    decreases names.len() - i,
{
    if i < 0 || i >= names.len() {
        step_ok(s)
    } else {
        match spec_get_property(s, record_id, names[i]) {
            Lookup::Corrupt => step_internal(s),
            Lookup::Missing => step_invalid(s),
            Lookup::Found(prop) => {
                let rep = ReporterV {
                    public_key: receiving,
                    authorized: true,
                    index: prop.reporters.len() as u32,
                };
                match spec_set_property(
                    s,
                    record_id,
                    names[i],
                    PropertyV { reporters: prop.reporters.push(rep), ..prop },
                ) {
                    None => step_internal(s),
                    Some(s1) => reporter_accept_fold(s1, names, i + 1, record_id, receiving),
                }
            },
        }
    }
}

/// The proposal container after the answered proposal is replaced: the
/// entry at its index leaves and the updated proposal takes its sorted
/// position.
pub open spec fn replace_proposal(
    list: Seq<ProposalV>,
    pi: int,
    newp: ProposalV,
) -> Seq<ProposalV> {
    proposal_insert(list.remove(pi), newp)
}

/// Answering a proposal: the unique open proposal for the triple is
/// found; cancel needs the issuing agent, reject and accept the
/// receiving agent. An accepted proposal whose issuer no longer holds
/// the offered role is stale and is marked canceled instead, leaving the
/// record untouched.
pub open spec fn spec_answer_proposal(
    s: Seq<crate::state::StateEntryV>,
    a: AnswerProposalActionV,
    signer: Seq<char>,
    timestamp: u64,
) -> Step {
    match spec_get_proposals(s, a.record_id, a.receiving_agent) {
        Lookup::Corrupt => step_internal(s),
        Lookup::Missing => step_invalid(s),
        Lookup::Found(list) => {
            if list.len() == 0 {
                step_invalid(s)
            } else {
                match open_prop_idx(list, a.record_id, a.receiving_agent, a.role) {
                    None => step_invalid(s),
                    Some(pi) => {
                        let cur = list[pi];
                        match a.response {
                            Response::Cancel => {
                                if cur.issuing_agent != signer {
                                    step_invalid(s)
                                } else {
                                    step_ok(
                                        spec_set_proposals(
                                            s,
                                            a.record_id,
                                            a.receiving_agent,
                                            replace_proposal(
                                                list,
                                                pi,
                                                ProposalV { status: ProposalStatus::Canceled, ..cur },
                                            ),
                                        ),
                                    )
                                }
                            },
                            Response::Reject => {
                                if cur.receiving_agent != signer {
                                    step_invalid(s)
                                } else {
                                    step_ok(
                                        spec_set_proposals(
                                            s,
                                            a.record_id,
                                            a.receiving_agent,
                                            replace_proposal(
                                                list,
                                                pi,
                                                ProposalV { status: ProposalStatus::Rejected, ..cur },
                                            ),
                                        ),
                                    )
                                }
                            },
                            Response::Accept => {
                                if cur.receiving_agent != signer {
                                    step_invalid(s)
                                } else {
                                    spec_accept_proposal(s, a, signer, timestamp, list, pi, cur)
                                }
                            },
                        }
                    },
                }
            }
        },
    }
}

/// The accept branch of answering a proposal, by role.
pub open spec fn spec_accept_proposal(
    s: Seq<crate::state::StateEntryV>,
    a: AnswerProposalActionV,
    signer: Seq<char>,
    timestamp: u64,
    list: Seq<ProposalV>,
    pi: int,
    cur: ProposalV,
) -> Step {
    match spec_get_record(s, a.record_id) {
        Lookup::Corrupt => step_internal(s),
        Lookup::Missing => step_invalid(s),
        Lookup::Found(rec) => {
            if rec.owners.len() == 0 {
                step_invalid(s)
            } else if rec.custodians.len() == 0 {
                step_invalid(s)
            } else {
                let owner = rec.owners.last();
                let custodian = rec.custodians.last();
                match a.role {
                    Role::Owner => {
                        if owner.agent_id != cur.issuing_agent {
                            step_ok(
                                spec_set_proposals(
                                    s,
                                    a.record_id,
                                    a.receiving_agent,
                                    replace_proposal(
                                        list,
                                        pi,
                                        ProposalV { status: ProposalStatus::Canceled, ..cur },
                                    ),
                                ),
                            )
                        } else {
                            let rec2 = RecordV {
                                owners: rec.owners.push(
                                    AssociatedAgentV {
                                        agent_id: a.receiving_agent,
                                        timestamp,
                                    },
                                ),
                                ..rec
                            };
                            match spec_set_record(s, a.record_id, rec2) {
                                None => step_internal(s),
                                Some(s1) => match spec_get_record_type(s1, rec.record_type) {
                                    Lookup::Corrupt => step_internal(s1),
                                    Lookup::Missing => step_invalid(s1),
                                    Lookup::Found(rt) => {
                                        let st = owner_accept_fold(
                                            s1,
                                            rt.properties,
                                            0,
                                            a.record_id,
                                            owner.agent_id,
                                            a.receiving_agent,
                                        );
                                        if st.err is Some {
                                            st
                                        } else {
                                            step_ok(
                                                spec_set_proposals(
                                                    st.state,
                                                    a.record_id,
                                                    a.receiving_agent,
                                                    replace_proposal(
                                                        list,
                                                        pi,
                                                        ProposalV {
                                                            status: ProposalStatus::Accepted,
                                                            ..cur
                                                        },
                                                    ),
                                                ),
                                            )
                                        }
                                    },
                                },
                            }
                        }
                    },
                    Role::Custodian => {
                        if custodian.agent_id != cur.issuing_agent {
                            step_ok(
                                spec_set_proposals(
                                    s,
                                    a.record_id,
                                    a.receiving_agent,
                                    replace_proposal(
                                        list,
                                        pi,
                                        ProposalV { status: ProposalStatus::Canceled, ..cur },
                                    ),
                                ),
                            )
                        } else {
                            let rec2 = RecordV {
                                custodians: rec.custodians.push(
                                    AssociatedAgentV { agent_id: a.receiving_agent, timestamp },
                                ),
                                ..rec
                            };
                            match spec_set_record(s, a.record_id, rec2) {
                                None => step_internal(s),
                                Some(s1) => step_ok(
                                    spec_set_proposals(
                                        s1,
                                        a.record_id,
                                        a.receiving_agent,
                                        replace_proposal(
                                            list,
                                            pi,
                                            ProposalV { status: ProposalStatus::Accepted, ..cur },
                                        ),
                                    ),
                                ),
                            }
                        }
                    },
                    Role::Reporter => {
                        if owner.agent_id != cur.issuing_agent {
                            step_ok(
                                spec_set_proposals(
                                    s,
                                    a.record_id,
                                    a.receiving_agent,
                                    replace_proposal(
                                        list,
                                        pi,
                                        ProposalV { status: ProposalStatus::Canceled, ..cur },
                                    ),
                                ),
                            )
                        } else {
                            let st = reporter_accept_fold(
                                s,
                                cur.properties,
                                0,
                                a.record_id,
                                a.receiving_agent,
                            );
                            if st.err is Some {
                                st
                            } else {
                                step_ok(
                                    spec_set_proposals(
                                        st.state,
                                        a.record_id,
                                        a.receiving_agent,
                                        replace_proposal(
                                            list,
                                            pi,
                                            ProposalV { status: ProposalStatus::Accepted, ..cur },
                                        ),
                                    ),
                                )
                            }
                        }
                    },
                }
            }
        },
    }
}


impl crate::handler::SupplyChainTransactionHandler {
    /// Answers an open proposal: cancel (issuer), reject (receiver), or
    /// accept (receiver), which performs the offered role transfer.
    #[verifier::loop_isolation(false)]
    pub fn answer_proposal(
        &self,
        payload: AnswerProposalAction,
        state: &mut SupplyChainState,
        signer: &str,
        timestamp: u64,
    ) -> (r: Result<(), ApplyError>)
        ensures
            step_matches(
                spec_answer_proposal(old(state)@, payload@, signer@, timestamp),
                final(state)@,
                r,
            ),
    {
        let ghost av = payload@;
        let record_id = payload.record_id.as_str();
        let receiving_agent = payload.receiving_agent.as_str();
        let role = payload.role;
        let response = payload.response;
        let mut proposals: Vec<Proposal> = match state.get_proposal_container(
            record_id,
            receiving_agent,
        ) {
            Ok(Some(p)) => p,
            Ok(None) => {
                return Err(
                    ApplyError::InvalidTransaction(String::from_str("Proposal does not exist")),
                );
            },
            Err(err) => {
                return Err(err);
            },
        };
        let ghost listv = views_of(proposals@);
        if proposals.len() == 0 {
            return Err(
                ApplyError::InvalidTransaction(
                    String::from_str("No open proposals found for record ").concat(
                        record_id,
                    ).concat(" for ").concat(receiving_agent),
                ),
            );
        }
        let proposal_index = match find_open_proposal(&proposals, record_id, receiving_agent, role)
            {
            Some(pi) => pi,
            None => {
                return Err(
                    ApplyError::InvalidTransaction(
                        String::from_str("No open proposals found for record ").concat(
                            record_id,
                        ).concat(" for ").concat(receiving_agent),
                    ),
                );
            },
        };
        let mut current_proposal = proposals[proposal_index].clone();
        let ghost curv = listv[proposal_index as int];
        proof {
            assert(current_proposal@ == curv);
        }
        match response {
            Response::Cancel => {
                if !str_eq(current_proposal.issuing_agent.as_str(), signer) {
                    return Err(
                        ApplyError::InvalidTransaction(
                            String::from_str("Only the issuing agent can cancel a proposal"),
                        ),
                    );
                }
                current_proposal.status = ProposalStatus::Canceled;
                proof {
                    assert(current_proposal@ == ProposalV {
                        status: ProposalStatus::Canceled,
                        ..curv
                    });
                }
            },
            Response::Reject => {
                if !str_eq(current_proposal.receiving_agent.as_str(), signer) {
                    return Err(
                        ApplyError::InvalidTransaction(
                            String::from_str("Only the receiving agent can reject a proposal"),
                        ),
                    );
                }
                current_proposal.status = ProposalStatus::Rejected;
                proof {
                    assert(current_proposal@ == ProposalV {
                        status: ProposalStatus::Rejected,
                        ..curv
                    });
                }
            },
            Response::Accept => {
                if !str_eq(current_proposal.receiving_agent.as_str(), signer) {
                    return Err(
                        ApplyError::InvalidTransaction(
                            String::from_str("Only the receiving agent can Accept a proposal"),
                        ),
                    );
                }
                let mut proposal_record = match state.get_record(record_id) {
                    Ok(Some(record)) => record,
                    Ok(None) => {
                        return Err(
                            ApplyError::InvalidTransaction(
                                String::from_str("Record in proposal does not exist: ").concat(
                                    record_id,
                                ),
                            ),
                        );
                    },
                    Err(err) => {
                        return Err(err);
                    },
                };
                let ghost recv = spec_get_record(old(state)@, av.record_id)->Found_0;
                if proposal_record.owners.len() == 0 {
                    return Err(
                        ApplyError::InvalidTransaction(String::from_str("Owner not found")),
                    );
                }
                if proposal_record.custodians.len() == 0 {
                    return Err(
                        ApplyError::InvalidTransaction(String::from_str("Custodian not found")),
                    );
                }
                let owner_id = proposal_record.owners[proposal_record.owners.len()
                    - 1].agent_id.clone();
                let custodian_id = proposal_record.custodians[proposal_record.custodians.len()
                    - 1].agent_id.clone();
                proof {
                    assert(owner_id@ == recv.owners.last().agent_id);
                    assert(custodian_id@ == recv.custodians.last().agent_id);
                }
                match role {
                    Role::Owner => {
                        if !str_eq(owner_id.as_str(), current_proposal.issuing_agent.as_str()) {
                            current_proposal.status = ProposalStatus::Canceled;
                            proof {
                                assert(current_proposal@ == ProposalV {
                                    status: ProposalStatus::Canceled,
                                    ..curv
                                });
                            }
                            let ghost pre = proposals@;
                            proposals.remove(proposal_index);
                            proof {
                                crate::containers::lemma_views_of_remove(
                                    pre,
                                    proposal_index as int,
                                );
                                assert(views_of(proposals@) =~= listv.remove(
                                    proposal_index as int,
                                ));
                            }
                            insert_proposal_sorted(&mut proposals, current_proposal);
                            state.set_proposal_container(record_id, receiving_agent, proposals)?;
                            return Ok(());
                        }
                        let new_owner = AssociatedAgent {
                            agent_id: payload.receiving_agent.clone(),
                            timestamp,
                        };
                        proposal_record.owners.push(new_owner);
                        proof {
                            assert(proposal_record@.owners =~= recv.owners.push(
                                AssociatedAgentV { agent_id: av.receiving_agent, timestamp },
                            ));
                            assert(proposal_record@ == RecordV {
                                owners: recv.owners.push(
                                    AssociatedAgentV {
                                        agent_id: av.receiving_agent,
                                        timestamp,
                                    },
                                ),
                                ..recv
                            });
                        }
                        state.set_record(record_id, proposal_record.clone())?;
                        let record_type = match state.get_record_type(
                            proposal_record.record_type.as_str(),
                        ) {
                            Ok(Some(record_type)) => record_type,
                            Ok(None) => {
                                return Err(
                                    ApplyError::InvalidTransaction(
                                        String::from_str("RecordType does not exist: ").concat(
                                            proposal_record.record_type.as_str(),
                                        ),
                                    ),
                                );
                            },
                            Err(err) => {
                                return Err(err);
                            },
                        };
                        let ghost rtv = record_type@;
                        let ghost s1 = state@;
                        proof {
                            assert(rtv.properties =~= views_of(record_type.properties@));
                        }
                        let mut i: usize = 0;
                        while i < record_type.properties.len()
                            invariant
                                i <= record_type.properties@.len(),
                                owner_accept_fold(
                                    s1,
                                    rtv.properties,
                                    0,
                                    av.record_id,
                                    owner_id@,
                                    av.receiving_agent,
                                ) == owner_accept_fold(
                                    state@,
                                    rtv.properties,
                                    i as int,
                                    av.record_id,
                                    owner_id@,
                                    av.receiving_agent,
                                ),
                            decreases record_type.properties@.len() - i,
                        {
                            let prop_schema = &record_type.properties[i];
                            let mut prop = match state.get_property(
                                record_id,
                                prop_schema.name.as_str(),
                            ) {
                                Ok(Some(prop)) => prop,
                                Ok(None) => {
                                    return Err(
                                        ApplyError::InvalidTransaction(
                                            String::from_str("Property does not exist"),
                                        ),
                                    );
                                },
                                Err(err) => {
                                    return Err(err);
                                },
                            };
                            let ghost propv = prop@;
                            proof {
                                assert(propv.reporters =~= views_of(prop.reporters@));
                            }
                            let mut authorized = false;
                            let mut new_reporters: Vec<Reporter> = Vec::new();
                            let mut j: usize = 0;
                            while j < prop.reporters.len()
                                invariant
                                    j <= prop.reporters@.len(),
                                    new_reporters@.len() == j,
                                    forall|l: int|
                                        0 <= l < j ==> (#[trigger] new_reporters@[l]@)
                                            == rebuild_reporters(
                                            propv.reporters,
                                            owner_id@,
                                            av.receiving_agent,
                                        )[l],
                                    authorized == exists|l: int|
                                        0 <= l < j && (#[trigger] propv.reporters[l]).public_key
                                            == av.receiving_agent
                                            && propv.reporters[l].public_key != owner_id@,
                                decreases prop.reporters@.len() - j,
                            {
                                let reporter = &prop.reporters[j];
                                if str_eq(reporter.public_key.as_str(), owner_id.as_str()) {
                                    new_reporters.push(
                                        Reporter {
                                            public_key: reporter.public_key.clone(),
                                            authorized: false,
                                            index: reporter.index,
                                        },
                                    );
                                } else if str_eq(reporter.public_key.as_str(), receiving_agent) {
                                    new_reporters.push(
                                        Reporter {
                                            public_key: reporter.public_key.clone(),
                                            authorized: true,
                                            index: reporter.index,
                                        },
                                    );
                                    authorized = true;
                                } else {
                                    new_reporters.push(reporter.clone());
                                }
                                proof {
                                    assert(new_reporters@[j as int]@ == rebuild_reporters(
                                        propv.reporters,
                                        owner_id@,
                                        av.receiving_agent,
                                    )[j as int]);
                                }
                                j += 1;
                            }
                            if !authorized {
                                let idx: u32 = #[verifier::truncate] (prop.reporters.len()
                                    as u32);
                                new_reporters.push(
                                    Reporter {
                                        public_key: payload.receiving_agent.clone(),
                                        authorized: true,
                                        index: idx,
                                    },
                                );
                            }
                            prop.reporters = new_reporters;
                            proof {
                                let reps2 = if receiving_present(
                                    propv.reporters,
                                    owner_id@,
                                    av.receiving_agent,
                                ) {
                                    rebuild_reporters(
                                        propv.reporters,
                                        owner_id@,
                                        av.receiving_agent,
                                    )
                                } else {
                                    rebuild_reporters(
                                        propv.reporters,
                                        owner_id@,
                                        av.receiving_agent,
                                    ).push(
                                        ReporterV {
                                            public_key: av.receiving_agent,
                                            authorized: true,
                                            index: propv.reporters.len() as u32,
                                        },
                                    )
                                };
                                assert(prop@.reporters =~= reps2);
                                assert(prop@ == PropertyV { reporters: reps2, ..propv });
                            }
                            let prop_name_owned = prop.name.clone();
                            state.set_property(record_id, prop_name_owned.as_str(), prop)?;
                            i += 1;
                        }
                        current_proposal.status = ProposalStatus::Accepted;
                        proof {
                            assert(current_proposal@ == ProposalV {
                                status: ProposalStatus::Accepted,
                                ..curv
                            });
                        }
                    },
                    Role::Custodian => {
                        if !str_eq(custodian_id.as_str(), current_proposal.issuing_agent.as_str())
                            {
                            current_proposal.status = ProposalStatus::Canceled;
                            proof {
                                assert(current_proposal@ == ProposalV {
                                    status: ProposalStatus::Canceled,
                                    ..curv
                                });
                            }
                            let ghost pre = proposals@;
                            proposals.remove(proposal_index);
                            proof {
                                crate::containers::lemma_views_of_remove(
                                    pre,
                                    proposal_index as int,
                                );
                                assert(views_of(proposals@) =~= listv.remove(
                                    proposal_index as int,
                                ));
                            }
                            insert_proposal_sorted(&mut proposals, current_proposal);
                            state.set_proposal_container(record_id, receiving_agent, proposals)?;
                            return Ok(());
                        }
                        let new_custodian = AssociatedAgent {
                            agent_id: payload.receiving_agent.clone(),
                            timestamp,
                        };
                        proposal_record.custodians.push(new_custodian);
                        proof {
                            assert(proposal_record@.custodians =~= recv.custodians.push(
                                AssociatedAgentV { agent_id: av.receiving_agent, timestamp },
                            ));
                            assert(proposal_record@ == RecordV {
                                custodians: recv.custodians.push(
                                    AssociatedAgentV {
                                        agent_id: av.receiving_agent,
                                        timestamp,
                                    },
                                ),
                                ..recv
                            });
                        }
                        state.set_record(record_id, proposal_record)?;
                        current_proposal.status = ProposalStatus::Accepted;
                        proof {
                            assert(current_proposal@ == ProposalV {
                                status: ProposalStatus::Accepted,
                                ..curv
                            });
                        }
                    },
                    Role::Reporter => {
                        if !str_eq(owner_id.as_str(), current_proposal.issuing_agent.as_str()) {
                            current_proposal.status = ProposalStatus::Canceled;
                            proof {
                                assert(current_proposal@ == ProposalV {
                                    status: ProposalStatus::Canceled,
                                    ..curv
                                });
                            }
                            let ghost pre = proposals@;
                            proposals.remove(proposal_index);
                            proof {
                                crate::containers::lemma_views_of_remove(
                                    pre,
                                    proposal_index as int,
                                );
                                assert(views_of(proposals@) =~= listv.remove(
                                    proposal_index as int,
                                ));
                            }
                            insert_proposal_sorted(&mut proposals, current_proposal);
                            state.set_proposal_container(record_id, receiving_agent, proposals)?;
                            return Ok(());
                        }
                        let ghost s0 = state@;
                        let mut i: usize = 0;
                        while i < current_proposal.properties.len()
                            invariant
                                i <= current_proposal.properties@.len(),
                                current_proposal@ == curv,
                                reporter_accept_fold(
                                    s0,
                                    curv.properties,
                                    0,
                                    av.record_id,
                                    av.receiving_agent,
                                ) == reporter_accept_fold(
                                    state@,
                                    curv.properties,
                                    i as int,
                                    av.record_id,
                                    av.receiving_agent,
                                ),
                            decreases current_proposal.properties@.len() - i,
                        {
                            let prop_name = current_proposal.properties[i].as_str();
                            let mut prop = match state.get_property(record_id, prop_name) {
                                Ok(Some(prop)) => prop,
                                Ok(None) => {
                                    return Err(
                                        ApplyError::InvalidTransaction(
                                            String::from_str("Property does not exist"),
                                        ),
                                    );
                                },
                                Err(err) => {
                                    return Err(err);
                                },
                            };
                            let ghost propv = prop@;
                            proof {
                                assert(propv.reporters =~= views_of(prop.reporters@));
                            }
                            let idx: u32 = #[verifier::truncate] (prop.reporters.len() as u32);
                            let rep = Reporter {
                                public_key: payload.receiving_agent.clone(),
                                authorized: true,
                                index: idx,
                            };
                            prop.reporters.push(rep);
                            proof {
                                assert(prop@.reporters =~= propv.reporters.push(
                                    ReporterV {
                                        public_key: av.receiving_agent,
                                        authorized: true,
                                        index: propv.reporters.len() as u32,
                                    },
                                ));
                                assert(prop@ == PropertyV {
                                    reporters: propv.reporters.push(
                                        ReporterV {
                                            public_key: av.receiving_agent,
                                            authorized: true,
                                            index: propv.reporters.len() as u32,
                                        },
                                    ),
                                    ..propv
                                });
                            }
                            state.set_property(record_id, prop_name, prop)?;
                            i += 1;
                        }
                        current_proposal.status = ProposalStatus::Accepted;
                        proof {
                            assert(current_proposal@ == ProposalV {
                                status: ProposalStatus::Accepted,
                                ..curv
                            });
                        }
                    },
                }
            },
        }
        let ghost pre = proposals@;
        proof {
            assert(views_of(pre) == listv);
            assert(proposal_index < proposals@.len());
        }
        proposals.remove(proposal_index);
        proof {
            crate::containers::lemma_views_of_remove(pre, proposal_index as int);
            assert(views_of(proposals@) =~= listv.remove(proposal_index as int));
        }
        insert_proposal_sorted(&mut proposals, current_proposal);
        state.set_proposal_container(record_id, receiving_agent, proposals)?;
        Ok(())
    }
}

} // verus!
