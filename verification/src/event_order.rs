use vstd::prelude::*;
use crate::elders_info::EldersInfoView;
use crate::id::PublicId;
use crate::network_event::{AccumulatingEvent, AccumulatingEventView};
use crate::routing_table::Prefix;

verus! {

// The canonical total order on agreements. The accumulator keeps its pending
// entries sorted by it, so that every node walks its pending events in the
// same order whatever the order their votes arrived in.

/// Lexicographic order on runs of words: a proper prefix comes first,
/// otherwise the first differing word decides.
pub open spec fn seq_u64_lt(a: Seq<u64>, b: Seq<u64>) -> bool
    decreases a.len(),
{
    if b.len() == 0 {
        false
    } else if a.len() == 0 {
        true
    } else if a.first() < b.first() {
        true
    } else if a.first() > b.first() {
        false
    } else {
        seq_u64_lt(a.drop_first(), b.drop_first())
    }
}

/// The lexicographic order is asymmetric, and in particular irreflexive.
pub proof fn lemma_seq_u64_lt_asymmetric(a: Seq<u64>, b: Seq<u64>)
    requires
        seq_u64_lt(a, b),
    ensures
        !seq_u64_lt(b, a),
        a != b,
    decreases a.len(),
{
    if a.len() == 0 {
    } else {
        if a.first() == b.first() {
            lemma_seq_u64_lt_asymmetric(a.drop_first(), b.drop_first());
        }
    }
}

/// The lexicographic order is transitive.
pub proof fn lemma_seq_u64_lt_transitive(a: Seq<u64>, b: Seq<u64>, c: Seq<u64>)
    requires
        seq_u64_lt(a, b),
        seq_u64_lt(b, c),
    ensures
        seq_u64_lt(a, c),
    decreases a.len(),
{
    if a.len() == 0 {
    } else {
        if a.first() == b.first() && b.first() == c.first() {
            lemma_seq_u64_lt_transitive(a.drop_first(), b.drop_first(), c.drop_first());
        }
    }
}

/// Dropping an equal prefix does not change how two runs compare.
proof fn lemma_seq_u64_lt_skip(a: Seq<u64>, b: Seq<u64>, k: int)
    requires
        0 <= k <= a.len(),
        k <= b.len(),
        forall|m: int| 0 <= m < k ==> a[m] == b[m],
    ensures
        seq_u64_lt(a, b) == seq_u64_lt(a.skip(k), b.skip(k)),
    decreases k,
{
    if k == 0 {
        assert(a.skip(0) =~= a);
        assert(b.skip(0) =~= b);
    } else {
        assert(a[0] == b[0]);
        assert(a.drop_first() =~= a.skip(1));
        assert(b.drop_first() =~= b.skip(1));
        assert(forall|m: int| 0 <= m < k - 1 ==> a.drop_first()[m] == b.drop_first()[m]);
        lemma_seq_u64_lt_skip(a.drop_first(), b.drop_first(), k - 1);
        assert(a.drop_first().skip(k - 1) =~= a.skip(k));
        assert(b.drop_first().skip(k - 1) =~= b.skip(k));
    }
}

/// The addresses of a run of identities, as plain words.
pub open spec fn ids_key(s: Seq<PublicId>) -> Seq<u64> {
    s.map_values(|p: PublicId| p.0.0)
}

/// A run of bytes, widened to words.
pub open spec fn bytes_key(s: Seq<u8>) -> Seq<u64> {
    s.map_values(|x: u8| x as u64)
}

/// Order on prefixes: by value, then by length.
pub open spec fn prefix_lt(a: Prefix, b: Prefix) -> bool {
    a.bits < b.bits || (a.bits == b.bits && a.len < b.len)
}

/// Order on section snapshots: members, then prefix, then version.
pub open spec fn elders_info_lt(a: EldersInfoView, b: EldersInfoView) -> bool {
    ||| seq_u64_lt(ids_key(a.members), ids_key(b.members))
    ||| (a.members == b.members && prefix_lt(a.prefix, b.prefix))
    ||| (a.members == b.members && a.prefix == b.prefix && a.version < b.version)
}

/// The rank of each kind of agreement in the canonical order.
pub open spec fn spec_event_tag(e: AccumulatingEventView) -> int {
    match e {
        AccumulatingEventView::AddElder(_) => 0,
        AccumulatingEventView::RemoveElder(_) => 1,
        AccumulatingEventView::Online(_) => 2,
        AccumulatingEventView::Offline(_) => 3,
        AccumulatingEventView::OurMerge => 4,
        AccumulatingEventView::NeighbourMerge(_) => 5,
        AccumulatingEventView::SectionInfo(_) => 6,
        AccumulatingEventView::TheirKeyInfo(_) => 7,
        AccumulatingEventView::AckMessage(_) => 8,
        AccumulatingEventView::SendAckMessage(_) => 9,
        AccumulatingEventView::ParsecPrune => 10,
        AccumulatingEventView::Relocate(_) => 11,
        AccumulatingEventView::User(_) => 12,
    }
}

/// The canonical total order on agreements: by kind first, then by payload —
/// identities by address, prefixes by value then length, member and byte
/// runs lexicographically.
pub open spec fn event_lt(a: AccumulatingEventView, b: AccumulatingEventView) -> bool {
    if spec_event_tag(a) != spec_event_tag(b) {
        spec_event_tag(a) < spec_event_tag(b)
    } else {
        match (a, b) {
            (AccumulatingEventView::AddElder(x), AccumulatingEventView::AddElder(y)) => x.0.0
                < y.0.0,
            (AccumulatingEventView::RemoveElder(x), AccumulatingEventView::RemoveElder(y)) => x.0.0
                < y.0.0,
            (AccumulatingEventView::Online(x), AccumulatingEventView::Online(y)) => x.pub_id.0.0
                < y.pub_id.0.0 || (x.pub_id == y.pub_id && x.age < y.age),
            (AccumulatingEventView::Offline(x), AccumulatingEventView::Offline(y)) => x.0.0
                < y.0.0,
            (AccumulatingEventView::OurMerge, AccumulatingEventView::OurMerge) => false,
            (
                AccumulatingEventView::NeighbourMerge(x),
                AccumulatingEventView::NeighbourMerge(y),
            ) => x.0 < y.0,
            (AccumulatingEventView::SectionInfo(x), AccumulatingEventView::SectionInfo(y)) =>
                elders_info_lt(x, y),
            (AccumulatingEventView::TheirKeyInfo(x), AccumulatingEventView::TheirKeyInfo(y)) => {
                ||| prefix_lt(x.prefix, y.prefix)
                ||| (x.prefix == y.prefix && x.version < y.version)
                ||| (x.prefix == y.prefix && x.version == y.version && x.key < y.key)
            },
            (AccumulatingEventView::AckMessage(x), AccumulatingEventView::AckMessage(y)) => {
                ||| prefix_lt(x.src_prefix, y.src_prefix)
                ||| (x.src_prefix == y.src_prefix && x.ack_version < y.ack_version)
            },
            (
                AccumulatingEventView::SendAckMessage(x),
                AccumulatingEventView::SendAckMessage(y),
            ) => {
                ||| prefix_lt(x.ack_prefix, y.ack_prefix)
                ||| (x.ack_prefix == y.ack_prefix && x.ack_version < y.ack_version)
            },
            (AccumulatingEventView::ParsecPrune, AccumulatingEventView::ParsecPrune) => false,
            (AccumulatingEventView::Relocate(x), AccumulatingEventView::Relocate(y)) => {
                ||| x.pub_id.0.0 < y.pub_id.0.0
                ||| (x.pub_id == y.pub_id && x.destination.0 < y.destination.0)
                ||| (x.pub_id == y.pub_id && x.destination == y.destination && x.age < y.age)
            },
            (AccumulatingEventView::User(x), AccumulatingEventView::User(y)) => seq_u64_lt(
                bytes_key(x),
                bytes_key(y),
            ),
            _ => false,
        }
    }
}

/// The canonical order is transitive.
pub proof fn lemma_event_lt_transitive(
    a: AccumulatingEventView,
    b: AccumulatingEventView,
    c: AccumulatingEventView,
)
    requires
        event_lt(a, b),
        event_lt(b, c),
    ensures
        event_lt(a, c),
{
    assert(spec_event_tag(a) <= spec_event_tag(b));
    assert(spec_event_tag(b) <= spec_event_tag(c));
    if spec_event_tag(a) == spec_event_tag(c) {
        match (a, b, c) {
            (
                AccumulatingEventView::SectionInfo(x),
                AccumulatingEventView::SectionInfo(y),
                AccumulatingEventView::SectionInfo(z),
            ) => {
                if seq_u64_lt(ids_key(x.members), ids_key(y.members)) && seq_u64_lt(
                    ids_key(y.members),
                    ids_key(z.members),
                ) {
                    lemma_seq_u64_lt_transitive(
                        ids_key(x.members),
                        ids_key(y.members),
                        ids_key(z.members),
                    );
                }
            },
            (
                AccumulatingEventView::User(x),
                AccumulatingEventView::User(y),
                AccumulatingEventView::User(z),
            ) => {
                lemma_seq_u64_lt_transitive(bytes_key(x), bytes_key(y), bytes_key(z));
            },
            _ => {},
        }
    }
}

/// Three-way comparison of words.
fn cmp_u64(x: u64, y: u64) -> (r: i8)
    ensures
        -1 <= r <= 1,
        (r == 0) == (x == y),
        (r == -1) == (x < y),
        (r == 1) == (x > y),
{
    if x < y {
        -1
    } else if x > y {
        1
    } else {
        0
    }
}

/// Three-way comparison of prefixes, by value then length.
fn cmp_prefix(x: Prefix, y: Prefix) -> (r: i8)
    ensures
        -1 <= r <= 1,
        (r == 0) == (x == y),
        (r == -1) == prefix_lt(x, y),
        (r == 1) == prefix_lt(y, x),
{
    let c = cmp_u64(x.bits, y.bits);
    if c != 0 {
        c
    } else {
        cmp_u64(x.len, y.len)
    }
}

/// Three-way lexicographic comparison of member runs.
fn cmp_id_vecs(a: &Vec<PublicId>, b: &Vec<PublicId>) -> (r: i8)
    ensures
        -1 <= r <= 1,
        (r == 0) == (a@ == b@),
        (r == -1) == seq_u64_lt(ids_key(a@), ids_key(b@)),
        (r == 1) == seq_u64_lt(ids_key(b@), ids_key(a@)),
{
    let ghost ka = ids_key(a@);
    let ghost kb = ids_key(b@);
    let na = a.len();
    let nb = b.len();
    let n = if na < nb {
        na
    } else {
        nb
    };
    let mut i: usize = 0;
    while i < n
        invariant
            na == a@.len(),
            nb == b@.len(),
            n == if na < nb {
                na
            } else {
                nb
            },
            i <= n,
            ka == ids_key(a@),
            kb == ids_key(b@),
            forall|m: int| 0 <= m < i ==> ka[m] == kb[m],
        decreases n - i,
    {
        let x = a[i].0.0;
        let y = b[i].0.0;
        if x != y {
            proof {
                lemma_seq_u64_lt_skip(ka, kb, i as int);
                lemma_seq_u64_lt_skip(kb, ka, i as int);
                assert(ka.skip(i as int).first() == x);
                assert(kb.skip(i as int).first() == y);
                if a@ == b@ {
                    assert(ka[i as int] == kb[i as int]);
                }
            }
            if x < y {
                return -1;
            } else {
                return 1;
            }
        }
        i += 1;
    }
    proof {
        lemma_seq_u64_lt_skip(ka, kb, n as int);
        lemma_seq_u64_lt_skip(kb, ka, n as int);
    }
    if na < nb {
        proof {
            assert(ka.skip(n as int).len() == 0);
            assert(kb.skip(n as int).len() > 0);
            if a@ == b@ {
                assert(ka.len() == kb.len());
            }
        }
        -1
    } else if na > nb {
        proof {
            assert(kb.skip(n as int).len() == 0);
            assert(ka.skip(n as int).len() > 0);
        }
        1
    } else {
        proof {
            assert forall|m: int| 0 <= m < a@.len() implies a@[m] == b@[m] by {
                assert(ka[m] == kb[m]);
            }
            assert(a@ =~= b@);
            assert(ka.skip(n as int).len() == 0);
            assert(kb.skip(n as int).len() == 0);
        }
        0
    }
}

/// Three-way lexicographic comparison of byte runs.
fn cmp_byte_vecs(a: &Vec<u8>, b: &Vec<u8>) -> (r: i8)
    ensures
        -1 <= r <= 1,
        (r == 0) == (a@ == b@),
        (r == -1) == seq_u64_lt(bytes_key(a@), bytes_key(b@)),
        (r == 1) == seq_u64_lt(bytes_key(b@), bytes_key(a@)),
{
    let ghost ka = bytes_key(a@);
    let ghost kb = bytes_key(b@);
    let na = a.len();
    let nb = b.len();
    let n = if na < nb {
        na
    } else {
        nb
    };
    let mut i: usize = 0;
    while i < n
        invariant
            na == a@.len(),
            nb == b@.len(),
            n == if na < nb {
                na
            } else {
                nb
            },
            i <= n,
            ka == bytes_key(a@),
            kb == bytes_key(b@),
            forall|m: int| 0 <= m < i ==> ka[m] == kb[m],
        decreases n - i,
    {
        let x = a[i];
        let y = b[i];
        if x != y {
            proof {
                lemma_seq_u64_lt_skip(ka, kb, i as int);
                lemma_seq_u64_lt_skip(kb, ka, i as int);
                assert(ka.skip(i as int).first() == x as u64);
                assert(kb.skip(i as int).first() == y as u64);
                if a@ == b@ {
                    assert(ka[i as int] == kb[i as int]);
                }
            }
            if x < y {
                return -1;
            } else {
                return 1;
            }
        }
        i += 1;
    }
    proof {
        lemma_seq_u64_lt_skip(ka, kb, n as int);
        lemma_seq_u64_lt_skip(kb, ka, n as int);
    }
    if na < nb {
        proof {
            assert(ka.skip(n as int).len() == 0);
            assert(kb.skip(n as int).len() > 0);
            if a@ == b@ {
                assert(ka.len() == kb.len());
            }
        }
        -1
    } else if na > nb {
        proof {
            assert(kb.skip(n as int).len() == 0);
            assert(ka.skip(n as int).len() > 0);
        }
        1
    } else {
        proof {
            assert forall|m: int| 0 <= m < a@.len() implies a@[m] == b@[m] by {
                assert(ka[m] == kb[m]);
            }
            assert(a@ =~= b@);
            assert(ka.skip(n as int).len() == 0);
            assert(kb.skip(n as int).len() == 0);
        }
        0
    }
}

/// The rank of each kind of agreement.
fn event_tag(e: &AccumulatingEvent) -> (r: u64)
    ensures
        r == spec_event_tag(e@),
{
    match e {
        AccumulatingEvent::AddElder(_) => 0,
        AccumulatingEvent::RemoveElder(_) => 1,
        AccumulatingEvent::Online(_) => 2,
        AccumulatingEvent::Offline(_) => 3,
        AccumulatingEvent::OurMerge => 4,
        AccumulatingEvent::NeighbourMerge(_) => 5,
        AccumulatingEvent::SectionInfo(_) => 6,
        AccumulatingEvent::TheirKeyInfo(_) => 7,
        AccumulatingEvent::AckMessage(_) => 8,
        AccumulatingEvent::SendAckMessage(_) => 9,
        AccumulatingEvent::ParsecPrune => 10,
        AccumulatingEvent::Relocate(_) => 11,
        AccumulatingEvent::User(_) => 12,
    }
}

/// Three-way comparison of agreements in the canonical order.
pub fn event_cmp(a: &AccumulatingEvent, b: &AccumulatingEvent) -> (r: i8)
    ensures
        -1 <= r <= 1,
        (r == 0) == (a@ == b@),
        (r == -1) == event_lt(a@, b@),
        (r == 1) == event_lt(b@, a@),
{
    let ta = event_tag(a);
    let tb = event_tag(b);
    if ta < tb {
        return -1;
    }
    if ta > tb {
        return 1;
    }
    match (a, b) {
        (AccumulatingEvent::AddElder(x), AccumulatingEvent::AddElder(y)) => cmp_u64(x.0.0, y.0.0),
        (AccumulatingEvent::RemoveElder(x), AccumulatingEvent::RemoveElder(y)) => cmp_u64(
            x.0.0,
            y.0.0,
        ),
        (AccumulatingEvent::Online(x), AccumulatingEvent::Online(y)) => {
            let c = cmp_u64(x.pub_id.0.0, y.pub_id.0.0);
            if c != 0 {
                c
            } else if x.age < y.age {
                -1
            } else if x.age > y.age {
                1
            } else {
                0
            }
        },
        (AccumulatingEvent::Offline(x), AccumulatingEvent::Offline(y)) => cmp_u64(x.0.0, y.0.0),
        (AccumulatingEvent::OurMerge, AccumulatingEvent::OurMerge) => 0,
        (AccumulatingEvent::NeighbourMerge(x), AccumulatingEvent::NeighbourMerge(y)) => cmp_u64(
            x.0,
            y.0,
        ),
        (AccumulatingEvent::SectionInfo(x), AccumulatingEvent::SectionInfo(y)) => {
            let c = cmp_id_vecs(&x.members, &y.members);
            if c != 0 {
                c
            } else {
                let c2 = cmp_prefix(x.prefix, y.prefix);
                if c2 != 0 {
                    c2
                } else {
                    cmp_u64(x.version, y.version)
                }
            }
        },
        (AccumulatingEvent::TheirKeyInfo(x), AccumulatingEvent::TheirKeyInfo(y)) => {
            let c = cmp_prefix(x.prefix, y.prefix);
            if c != 0 {
                c
            } else {
                let c2 = cmp_u64(x.version, y.version);
                if c2 != 0 {
                    c2
                } else {
                    cmp_u64(x.key, y.key)
                }
            }
        },
        (AccumulatingEvent::AckMessage(x), AccumulatingEvent::AckMessage(y)) => {
            let c = cmp_prefix(x.src_prefix, y.src_prefix);
            if c != 0 {
                c
            } else {
                cmp_u64(x.ack_version, y.ack_version)
            }
        },
        (AccumulatingEvent::SendAckMessage(x), AccumulatingEvent::SendAckMessage(y)) => {
            let c = cmp_prefix(x.ack_prefix, y.ack_prefix);
            if c != 0 {
                c
            } else {
                cmp_u64(x.ack_version, y.ack_version)
            }
        },
        (AccumulatingEvent::ParsecPrune, AccumulatingEvent::ParsecPrune) => 0,
        (AccumulatingEvent::Relocate(x), AccumulatingEvent::Relocate(y)) => {
            let c = cmp_u64(x.pub_id.0.0, y.pub_id.0.0);
            if c != 0 {
                c
            } else {
                let c2 = cmp_u64(x.destination.0, y.destination.0);
                if c2 != 0 {
                    c2
                } else if x.age < y.age {
                    -1
                } else if x.age > y.age {
                    1
                } else {
                    0
                }
            }
        },
        (AccumulatingEvent::User(x), AccumulatingEvent::User(y)) => cmp_byte_vecs(x, y),
        _ => 0,
    }
}

} // verus!
