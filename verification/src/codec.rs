//! Text encodings of persisted values: capability lists and canonical
//! output references, as stored in database rows.
use vstd::prelude::*;
use vstd::string::{StrSliceExecFns, StringExecFns};

use crate::capability::{all_capabilities, Capability, CapabilitySet};
use crate::errors::{error_message, DomainError, ErrorModel};
use crate::outpoint::{lemma_outpoint_text_round_trip, outpoint_text, parse_outpoint_text, OutPoint, OutPointModel};
use crate::text::{chars_of, str_eq};

verus! {

/// The names joined with commas.
pub open spec fn join_names(names: Seq<Seq<char>>) -> Seq<char>
    decreases names.len(),
{
    if names.len() == 0 {
        Seq::empty()
    } else if names.len() == 1 {
        names[0]
    } else {
        join_names(names.drop_last()) + ","@ + names.last()
    }
}

/// The pieces of `s` between commas, as splitting at every comma gives them:
/// the empty text is one empty piece.
pub open spec fn split_commas(s: Seq<char>) -> Seq<Seq<char>>
    decreases s.len(),
{
    if s.len() == 0 {
        seq![Seq::empty()]
    } else if s.last() == ',' {
        split_commas(s.drop_last()).push(Seq::empty())
    } else {
        let p = split_commas(s.drop_last());
        p.update(p.len() - 1, p.last().push(s.last()))
    }
}

/// The persisted names of the capabilities, in order.
pub open spec fn capability_names(cs: Seq<Capability>) -> Seq<Seq<char>> {
    cs.map_values(|c: Capability| c.name_text())
}

/// The persisted text of a capability set: the names of its members in
/// declared order, joined with commas.
pub open spec fn encoded_capabilities(s: CapabilitySet) -> Seq<char> {
    join_names(capability_names(s.ordered()))
}

/// The error for a persisted capability name that names none.
pub open spec fn invalid_capability(piece: Seq<char>) -> ErrorModel {
    ErrorModel::CorruptedState("invalid txoscope::capability::Capability value in sqlite row: "@ + piece)
}

/// Reading names in order: the capabilities, or the error for the first unknown name.
pub open spec fn decode_names(pieces: Seq<Seq<char>>) -> Result<Seq<Capability>, ErrorModel>
    decreases pieces.len(),
{
    if pieces.len() == 0 {
        Ok(Seq::empty())
    } else {
        match decode_names(pieces.drop_last()) {
            Err(e) => Err(e),
            Ok(cs) => match Capability::parse_name(pieces.last()) {
                None => Err(invalid_capability(pieces.last())),
                Some(c) => Ok(cs.push(c)),
            },
        }
    }
}

/// Reading a persisted capability list: the empty text is the empty set;
/// otherwise each comma-separated piece must name a capability.
pub open spec fn decoded_capabilities(s: Seq<char>) -> Result<Set<Capability>, ErrorModel> {
    if s.len() == 0 {
        Ok(Set::empty())
    } else {
        match decode_names(split_commas(s)) {
            Err(e) => Err(e),
            Ok(cs) => Ok(cs.to_set()),
        }
    }
}

/// Reading a persisted output reference: it must parse, and print back as written.
pub open spec fn decoded_outpoint(s: Seq<char>) -> Result<OutPointModel, ErrorModel> {
    match parse_outpoint_text(s) {
        None => Err(
            ErrorModel::CorruptedState(
                "invalid outpoint in sqlite row: "@ + s + ": "@ + error_message(
                    ErrorModel::InvalidRequest { reason: crate::outpoint::invalid_outpoint_reason(s) },
                ),
            ),
        ),
        Some(o) => if outpoint_text(o) != s {
            Err(ErrorModel::CorruptedState("noncanonical outpoint in sqlite row: "@ + s))
        } else {
            Ok(o)
        },
    }
}

/// A text without commas splits into itself.
proof fn lemma_split_plain(b: Seq<char>)
    requires
        forall|i: int| 0 <= i < b.len() ==> b[i] != ',',
    ensures
        split_commas(b) == seq![b],
    decreases b.len(),
{
    if b.len() > 0 {
        lemma_split_plain(b.drop_last());
        assert(b.drop_last().push(b.last()) =~= b);
        assert(seq![b.drop_last()].update(0, b.drop_last().push(b.last())) =~= seq![b]);
    } else {
        assert(b =~= Seq::<char>::empty());
    }
}

/// Appending a comma and a text without commas appends one piece.
proof fn lemma_split_append(a: Seq<char>, b: Seq<char>)
    requires
        forall|i: int| 0 <= i < b.len() ==> b[i] != ',',
    ensures
        split_commas(a + ","@ + b) == split_commas(a).push(b),
    decreases b.len(),
{
    reveal_strlit(",");
    if b.len() == 0 {
        assert(a + ","@ + b =~= a.push(','));
        assert((a + ","@ + b).drop_last() =~= a);
        assert(b =~= Seq::<char>::empty());
    } else {
        let c = b.drop_last();
        lemma_split_append(a, c);
        assert((a + ","@ + b).drop_last() =~= a + ","@ + c);
        assert((a + ","@ + b).last() == b.last());
        assert(c.push(b.last()) =~= b);
        assert(split_commas(a).push(c).update(split_commas(a).len() as int, c.push(b.last())) =~= split_commas(
            a,
        ).push(b));
        assert(c.push(b.last()) =~= b);
    }
}

/// Joining texts without commas and splitting gives them back.
proof fn lemma_split_join(names: Seq<Seq<char>>)
    requires
        names.len() > 0,
        forall|k: int, i: int| 0 <= k < names.len() && 0 <= i < names[k].len() ==> #[trigger] names[k][i] != ',',
    ensures
        split_commas(join_names(names)) == names,
    decreases names.len(),
{
    if names.len() == 1 {
        lemma_split_plain(names[0]);
        assert(seq![names[0]] =~= names);
    } else {
        let init = names.drop_last();
        lemma_split_join(init);
        let last = names.last();
        assert forall|i: int| 0 <= i < last.len() implies last[i] != ',' by {
            assert(names[names.len() - 1][i] != ',');
        }
        lemma_split_append(join_names(init), last);
        assert(init.push(last) =~= names);
    }
}

/// No persisted capability name is empty or holds a comma.
proof fn lemma_name_plain(c: Capability)
    ensures
        c.name_text().len() > 0,
        forall|i: int| 0 <= i < c.name_text().len() ==> #[trigger] c.name_text()[i] != ',',
{
    reveal_strlit("btc_spend");
    reveal_strlit("btc_receive");
    reveal_strlit("fee_support");
    reveal_strlit("reserve_support");
    reveal_strlit("single_target_reserve");
    reveal_strlit("l2_settlement");
    reveal_strlit("consolidation_source");
    reveal_strlit("consolidation_target");
}


/// Reading the names of capabilities gives them back.
proof fn lemma_decode_names(cs: Seq<Capability>)
    ensures
        decode_names(capability_names(cs)) == Ok::<Seq<Capability>, ErrorModel>(cs),
    decreases cs.len(),
{
    if cs.len() > 0 {
        lemma_decode_names(cs.drop_last());
        assert(capability_names(cs).drop_last() =~= capability_names(cs.drop_last()));
        assert(capability_names(cs).last() == cs.last().name_text());
        cs.last().lemma_name_round_trip();
        assert(cs.drop_last().push(cs.last()) =~= cs);
    } else {
        assert(cs =~= Seq::<Capability>::empty());
    }
}

/// The members in declared order are exactly the members.
proof fn lemma_ordered_members(s: CapabilitySet)
    ensures
        s.ordered().to_set() == s@,
{
    let all = all_capabilities();
    let pred = |c: Capability| s@.contains(c);
    assert forall|c: Capability| #[trigger] s.ordered().to_set().contains(c) == s@.contains(c) by {
        if s.ordered().to_set().contains(c) {
            let i = choose|i: int| 0 <= i < s.ordered().len() && s.ordered()[i] == c;
            all.lemma_filter_pred(pred, i);
        }
        if s@.contains(c) {
            let i: int = match c {
                Capability::BtcSpend => 0,
                Capability::BtcReceive => 1,
                Capability::FeeSupport => 2,
                Capability::ReserveSupport => 3,
                Capability::SingleTargetReserve => 4,
                Capability::L2Settlement => 5,
                Capability::ConsolidationSource => 6,
                Capability::ConsolidationTarget => 7,
            };
            assert(all[i] == c);
            all.lemma_filter_contains(pred, i);
        }
    }
    assert(s.ordered().to_set() =~= s@);
}

/// Persisting a capability set and reading it back gives the same set.
pub proof fn lemma_capabilities_round_trip(s: CapabilitySet)
    ensures
        decoded_capabilities(encoded_capabilities(s)) == Ok::<Set<Capability>, ErrorModel>(s@),
{
    let cs = s.ordered();
    let names = capability_names(cs);
    lemma_ordered_members(s);
    lemma_decode_names(cs);
    if cs.len() == 0 {
        assert(cs.to_set() =~= Set::<Capability>::empty());
    } else {
        assert forall|k: int, i: int| 0 <= k < names.len() && 0 <= i < names[k].len() implies #[trigger] names[k][i]
            != ',' by {
            lemma_name_plain(cs[k]);
        }
        lemma_split_join(names);
        lemma_name_plain(cs[0]);
        lemma_join_nonempty(names);
    }
}

/// Joined non-empty names are non-empty.
proof fn lemma_join_nonempty(names: Seq<Seq<char>>)
    requires
        names.len() > 0,
        names[0].len() > 0,
    ensures
        join_names(names).len() > 0,
    decreases names.len(),
{
    if names.len() > 1 {
        lemma_join_nonempty(names.drop_last());
    }
}

/// Persisting an output reference and reading it back gives the same reference.
pub proof fn lemma_outpoint_round_trip(o: OutPointModel)
    ensures
        decoded_outpoint(outpoint_text(o)) == Ok::<OutPointModel, ErrorModel>(o),
{
    lemma_outpoint_text_round_trip(o);
}


/// Encodings of persisted values in database rows.
#[derive(Debug, Default, Clone, Copy)]
pub struct SqliteCodec;

/// `decode_names` reads no further than its first unknown name.
proof fn lemma_decode_stop(pieces: Seq<Seq<char>>, k: int)
    requires
        0 < k <= pieces.len(),
        decode_names(pieces.take(k)) is Err,
    ensures
        decode_names(pieces) == decode_names(pieces.take(k)),
    decreases pieces.len() - k,
{
    if k < pieces.len() {
        assert(pieces.take(k + 1).drop_last() =~= pieces.take(k));
        lemma_decode_stop(pieces, k + 1);
    } else {
        assert(pieces.take(k) =~= pieces);
    }
}

impl SqliteCodec {
    /// The persisted text of a capability set: member names in declared order, comma-separated.
    pub fn encode_capabilities(capabilities: &CapabilitySet) -> (r: String)
        ensures
            r@ == encoded_capabilities(*capabilities),
    {
        let members = capabilities.iter();
        let ghost names = capability_names(members@);
        let mut r = String::new();
        let mut i: usize = 0;
        while i < members.len()
            invariant
                i <= members@.len(),
                names == capability_names(members@),
                r@ == join_names(names.take(i as int)),
            decreases members@.len() - i,
        {
            proof {
                reveal_strlit(",");
                assert(names.take(i + 1).drop_last() =~= names.take(i as int));
                assert(names.take(i + 1).last() == members@[i as int].name_text());
            }
            if i > 0 {
                r.append(",");
            }
            r.append(members[i].name());
            i = i + 1;
            proof {
                if i == 1 {
                    assert(r@ =~= names.take(1)[0]);
                }
            }
        }
        assert(names.take(i as int) =~= names);
        r
    }

    /// Reads a persisted capability list; an unknown name is corrupted state.
    pub fn decode_capabilities(encoded: &str) -> (r: Result<CapabilitySet, DomainError>)
        ensures
            match decoded_capabilities(encoded@) {
                Ok(s) => r is Ok && r->Ok_0@ == s,
                Err(e) => r is Err && r->Err_0@ == e,
            },
    {
        let chars = chars_of(encoded);
        let n = chars.len();
        if n == 0 {
            return Ok(CapabilitySet::empty());
        }
        let ghost s = encoded@;
        let ghost mut pieces: Seq<Seq<char>> = Seq::empty();
        let mut starts: Vec<usize> = Vec::new();
        let mut ends: Vec<usize> = Vec::new();
        let mut start: usize = 0;
        let mut i: usize = 0;
        assert(s.take(0) =~= Seq::<char>::empty());
        assert(s.subrange(0, 0) =~= Seq::<char>::empty());
        while i < n
            invariant
                n == s.len(),
                chars@ == s,
                start <= i <= n,
                starts@.len() == pieces.len(),
                ends@.len() == pieces.len(),
                forall|k: int| 0 <= k < pieces.len() ==> #[trigger] starts@[k] <= ends@[k] <= n,
                forall|k: int| 0 <= k < pieces.len() ==> #[trigger] pieces[k] == s.subrange(
                    starts@[k] as int,
                    ends@[k] as int,
                ),
                split_commas(s.take(i as int)) == pieces.push(s.subrange(start as int, i as int)),
            decreases n - i,
        {
            proof {
                assert(s.take(i + 1).drop_last() =~= s.take(i as int));
                assert(s.take(i + 1).last() == s[i as int]);
            }
            if chars[i] == ',' {
                proof {
                    pieces = pieces.push(s.subrange(start as int, i as int));
                    assert(s.subrange(i + 1, i + 1) =~= Seq::<char>::empty());
                }
                starts.push(start);
                ends.push(i);
                start = i + 1;
            } else {
                proof {
                    assert(s.subrange(start as int, i as int).push(s[i as int]) =~= s.subrange(start as int, i + 1));
                    let p = pieces.push(s.subrange(start as int, i as int));
                    assert(p.update(p.len() - 1, p.last().push(s[i as int])) =~= pieces.push(
                        s.subrange(start as int, i + 1),
                    ));
                }
            }
            i = i + 1;
        }
        proof {
            assert(s.take(n as int) =~= s);
            pieces = pieces.push(s.subrange(start as int, n as int));
        }
        starts.push(start);
        ends.push(n);
        let mut caps: Vec<Capability> = Vec::new();
        let mut k: usize = 0;
        assert(pieces.take(0) =~= Seq::<Seq<char>>::empty());
        while k < starts.len()
            invariant
                0 < n == s.len(),
                s == encoded@,
                starts@.len() == pieces.len(),
                ends@.len() == pieces.len(),
                k <= pieces.len(),
                pieces == split_commas(s),
                forall|j: int| 0 <= j < pieces.len() ==> #[trigger] starts@[j] <= ends@[j] <= n,
                forall|j: int| 0 <= j < pieces.len() ==> #[trigger] pieces[j] == s.subrange(
                    starts@[j] as int,
                    ends@[j] as int,
                ),
                decode_names(pieces.take(k as int)) == Ok::<Seq<Capability>, ErrorModel>(caps@),
            decreases pieces.len() - k,
        {
            proof {
                assert(pieces.take(k + 1).drop_last() =~= pieces.take(k as int));
                assert(pieces.take(k + 1).last() == pieces[k as int]);
            }
            let piece = encoded.substring_char(starts[k], ends[k]);
            match Capability::from_name(piece) {
                None => {
                    let mut message = String::from_str("invalid txoscope::capability::Capability value in sqlite row: ");
                    message.append(piece);
                    proof {
                        assert(piece@ == pieces[k as int]);
                        assert(decode_names(pieces.take(k + 1)) == Err::<Seq<Capability>, ErrorModel>(
                            invalid_capability(pieces[k as int]),
                        ));
                        lemma_decode_stop(pieces, k + 1);
                        assert(s.len() > 0);
                    }
                    return Err(DomainError::CorruptedState(message));
                },
                Some(c) => {
                    caps.push(c);
                },
            }
            k = k + 1;
        }
        assert(pieces.take(k as int) =~= pieces);
        Ok(CapabilitySet::from_slice(caps.as_slice()))
    }

    /// Reads a persisted output reference, which must be in canonical form.
    pub fn decode_outpoint(encoded: &str) -> (r: Result<OutPoint, DomainError>)
        ensures
            match decoded_outpoint(encoded@) {
                Ok(o) => r is Ok && r->Ok_0@ == o,
                Err(e) => r is Err && r->Err_0@ == e,
            },
    {
        match OutPoint::parse(encoded) {
            Err(error) => {
                let mut message = String::from_str("invalid outpoint in sqlite row: ");
                message.append(encoded);
                message.append(": ");
                let text = error.to_string();
                message.append(text.as_str());
                Err(DomainError::CorruptedState(message))
            },
            Ok(outpoint) => {
                let text = outpoint.to_string();
                if !str_eq(text.as_str(), encoded) {
                    let mut message = String::from_str("noncanonical outpoint in sqlite row: ");
                    message.append(encoded);
                    return Err(DomainError::CorruptedState(message));
                }
                Ok(outpoint)
            },
        }
    }
}

} // verus!
