//! Laws of the relay dispatcher, proved over the spec-level transition
//! [`step`]: reassembly delivers a completed packet exactly once with its
//! fragments concatenated in order, unsplit packets pass straight through,
//! and distinct packet keys never interfere.

use vstd::prelude::*;

use crate::command::{frag_wf, FragModel};
use crate::relay::{
    all_slots_full, buf_key_matches, concat_slots, delivery_of, find_buffer, insert_frag,
    lemma_find_buffer, new_buffer, step, table_wf, BufferModel, DeliveryModel,
};

verus! {

/// Fragment `f` belongs to packet `(a, p)` declaring `n` fragments.
pub open spec fn frag_keyed(f: FragModel, a: u32, p: u16, n: u8) -> bool {
    &&& f.packet.associate_id == a
    &&& f.packet.id == p
    &&& f.frag_total == n
    &&& frag_wf(f)
}

/// Some fragment in `frags` has index `j`.
pub open spec fn has_id(frags: Seq<FragModel>, j: int) -> bool {
    exists|k: int| 0 <= k < frags.len() && frags[k].frag_id == j
}

/// The payload of the last fragment in `frags` with index `j` (last write
/// wins on duplicates).
pub open spec fn last_payload(frags: Seq<FragModel>, j: int) -> Seq<u8>
    decreases frags.len(),
{
    if frags.len() == 0 {
        Seq::empty()
    } else if frags.last().frag_id == j {
        frags.last().packet.data
    } else {
        last_payload(frags.drop_last(), j)
    }
}

/// The table and the sequence of deliveries that accepting `frags` in order
/// produces, starting from table `t`.
pub open spec fn run(t: Seq<BufferModel>, frags: Seq<FragModel>) -> (Seq<BufferModel>, Seq<
    DeliveryModel,
>)
    decreases frags.len(),
{
    if frags.len() == 0 {
        (t, Seq::empty())
    } else {
        let first = step(t, frags[0]);
        let rest = run(first.0, frags.drop_first());
        (
            rest.0,
            match first.1 {
                Some(d) => seq![d] + rest.1,
                None => rest.1,
            },
        )
    }
}

/// Slot sequence `s` after the fragments of `frags` are written into their
/// slots, last write winning.
pub open spec fn fill_slots(s: Seq<Option<Seq<u8>>>, frags: Seq<FragModel>) -> Seq<
    Option<Seq<u8>>,
> {
    Seq::new(
        s.len(),
        |j: int|
            if has_id(frags, j) {
                Some(last_payload(frags, j))
            } else {
                s[j]
            },
    )
}

/// A fragment index that still occurs after the head occurs keeps its
/// last-written payload when the head is dropped.
proof fn lemma_last_payload_tail(frags: Seq<FragModel>, j: int)
    requires
        frags.len() >= 1,
        has_id(frags.drop_first(), j),
    ensures
        last_payload(frags, j) == last_payload(frags.drop_first(), j),
    decreases frags.len(),
{
    let rest = frags.drop_first();
    assert(rest.len() >= 1);
    assert(rest.last() == frags.last());
    if frags.last().frag_id == j {
    } else {
        let k = choose|k: int| 0 <= k < rest.len() && rest[k].frag_id == j;
        assert(k < rest.len() - 1);
        assert(frags.drop_last().drop_first() =~= rest.drop_last());
        assert(rest.drop_last()[k] == rest[k]);
        assert(has_id(rest.drop_last(), j));
        assert(frags.drop_last().len() >= 1);
        lemma_last_payload_tail(frags.drop_last(), j);
    }
}

/// A fragment index that occurs only at the head takes the head's payload.
proof fn lemma_last_payload_head(frags: Seq<FragModel>, j: int)
    requires
        frags.len() >= 1,
        frags[0].frag_id == j,
        !has_id(frags.drop_first(), j),
    ensures
        last_payload(frags, j) == frags[0].packet.data,
    decreases frags.len(),
{
    if frags.len() == 1 {
        assert(frags.last() == frags[0]);
    } else {
        assert(frags.last() == frags.drop_first()[frags.len() - 2]);
        assert(frags.last().frag_id != j);
        let prev = frags.drop_last();
        assert(prev[0] == frags[0]);
        assert(prev.drop_first() =~= frags.drop_first().drop_last());
        assert(!has_id(prev.drop_first(), j)) by {
            if has_id(prev.drop_first(), j) {
                let k = choose|k: int|
                    0 <= k < prev.drop_first().len() && prev.drop_first()[k].frag_id == j;
                assert(frags.drop_first()[k].frag_id == j);
            }
        }
        lemma_last_payload_head(prev, j);
    }
}

/// Feeding a buffer the fragments it is missing (in any order, duplicates
/// allowed, the last fragment arriving last-of-its-index) completes it on
/// the final fragment: exactly one delivery, the slots concatenated in
/// order, and the buffer gone.
proof fn lemma_run_fill(e: BufferModel, frags: Seq<FragModel>, a: u32, p: u16, n: u8)
    requires
        e.associate_id == a,
        e.packet_id == p,
        e.frag_total == n,
        e.slots.len() == n,
        2 <= n,
        frags.len() >= 1,
        forall|k: int| 0 <= k < frags.len() ==> frag_keyed(#[trigger] frags[k], a, p, n),
        e.slots[frags.last().frag_id as int] is None,
        forall|k: int| 0 <= k < frags.len() - 1 ==> (#[trigger] frags[k]).frag_id
            != frags.last().frag_id,
        forall|j: int| 0 <= j < n && e.slots[j] is None ==> has_id(frags, j),
    ensures
        run(seq![e], frags).0 == Seq::<BufferModel>::empty(),
        run(seq![e], frags).1.len() == 1,
        run(seq![e], frags).1[0].associate_id == a,
        run(seq![e], frags).1[0].payload == concat_slots(fill_slots(e.slots, frags)),
    decreases frags.len(),
{
    let t = seq![e];
    let f = frags[0];
    assert(buf_key_matches(t[0], a, p));
    assert(find_buffer(t, a, p) == 0);
    let e2 = insert_frag(e, f);
    assert(e2.slots =~= e.slots.update(f.frag_id as int, Some(f.packet.data)));
    if frags.len() == 1 {
        assert(frags.last() == f);
        assert(all_slots_full(e2.slots)) by {
            assert forall|j: int| 0 <= j < e2.slots.len() implies e2.slots[j] is Some by {
                if e.slots[j] is None {
                    assert(has_id(frags, j));
                    let k = choose|k: int| 0 <= k < frags.len() && frags[k].frag_id == j;
                    assert(k == 0);
                    assert(j == f.frag_id as int);
                }
            }
        }
        assert(step(t, f).0 == t.remove(0));
        assert(step(t, f).1 == Some(delivery_of(a, e2.address, concat_slots(e2.slots))));
        assert(t.remove(0) =~= Seq::<BufferModel>::empty());
        let rest0 = frags.drop_first();
        assert(rest0.len() == 0);
        assert(run(step(t, f).0, rest0) == (step(t, f).0, Seq::<DeliveryModel>::empty()));
        assert(run(t, frags).0 =~= Seq::<BufferModel>::empty());
        assert(e2.slots =~= fill_slots(e.slots, frags)) by {
            assert forall|j: int| 0 <= j < n implies e2.slots[j] == fill_slots(e.slots, frags)[j]
            by {
                if j == f.frag_id as int {
                    assert(has_id(frags, j));
                    assert(last_payload(frags, j) == f.packet.data);
                } else {
                    if has_id(frags, j) {
                        let k = choose|k: int| 0 <= k < frags.len() && frags[k].frag_id == j;
                        assert(k == 0);
                    }
                    assert(!has_id(frags, j));
                }
            }
        }
        assert(run(t, frags).1 =~= seq![
            delivery_of(a, e2.address, concat_slots(e2.slots)),
        ]);
        assert(run(t, frags).1[0].payload == concat_slots(fill_slots(e.slots, frags)));
    } else {
        let rest = frags.drop_first();
        let lid = frags.last().frag_id as int;
        assert(rest.last() == frags.last());
        assert(f.frag_id != frags.last().frag_id);
        assert(e2.slots[lid] is None);
        assert(!all_slots_full(e2.slots));
        assert(step(t, f).0 == t.update(0, e2));
        assert(step(t, f).1 is None);
        assert(t.update(0, e2) =~= seq![e2]);
        assert forall|k: int| 0 <= k < rest.len() implies frag_keyed(#[trigger] rest[k], a, p, n)
        by {
            assert(rest[k] == frags[k + 1]);
        }
        assert forall|k: int| 0 <= k < rest.len() - 1 implies (#[trigger] rest[k]).frag_id
            != rest.last().frag_id by {
            assert(rest[k] == frags[k + 1]);
        }
        assert forall|j: int| 0 <= j < n && e2.slots[j] is None implies has_id(rest, j) by {
            assert(j != f.frag_id as int);
            assert(e.slots[j] is None);
            assert(has_id(frags, j));
            let k = choose|k: int| 0 <= k < frags.len() && frags[k].frag_id == j;
            assert(k >= 1);
            assert(rest[k - 1].frag_id == j);
        }
        lemma_run_fill(e2, rest, a, p, n);
        assert(run(t, frags).0 == run(seq![e2], rest).0);
        assert(run(t, frags).1 =~= run(seq![e2], rest).1);
        assert(fill_slots(e2.slots, rest) =~= fill_slots(e.slots, frags)) by {
            assert forall|j: int| 0 <= j < n implies fill_slots(e2.slots, rest)[j] == fill_slots(
                e.slots,
                frags,
            )[j] by {
                if has_id(rest, j) {
                    let k = choose|k: int| 0 <= k < rest.len() && rest[k].frag_id == j;
                    assert(frags[k + 1].frag_id == j);
                    assert(has_id(frags, j));
                    lemma_last_payload_tail(frags, j);
                } else if has_id(frags, j) {
                    let k = choose|k: int| 0 <= k < frags.len() && frags[k].frag_id == j;
                    assert forall|k2: int| 1 <= k2 < frags.len() implies frags[k2].frag_id != j
                    by {
                        if frags[k2].frag_id == j {
                            assert(rest[k2 - 1].frag_id == j);
                        }
                    }
                    assert(k == 0);
                    assert(j == f.frag_id as int);
                    lemma_last_payload_head(frags, j);
                    assert(e2.slots[j] == Some(f.packet.data));
                } else {
                    assert(j != f.frag_id as int);
                    assert(e2.slots[j] == e.slots[j]);
                }
            }
        }
    }
}

/// For any fragment sequence of one packet with `n >= 2` fragments in which
/// every index below `n` occurs, duplicates allowed, and the packet is
/// completed by its final fragment (that fragment's index occurs nowhere
/// earlier), the dispatcher starting with no buffer delivers exactly one
/// payload: the concatenation, in fragment order, of the last-written
/// payload of each index. Nothing stays buffered.
pub proof fn lemma_reassembly_exactly_once(frags: Seq<FragModel>, a: u32, p: u16, n: u8)
    requires
        2 <= n,
        frags.len() >= 1,
        forall|k: int| 0 <= k < frags.len() ==> frag_keyed(#[trigger] frags[k], a, p, n),
        forall|j: int| 0 <= j < n ==> has_id(frags, j),
        forall|k: int| 0 <= k < frags.len() - 1 ==> (#[trigger] frags[k]).frag_id
            != frags.last().frag_id,
    ensures
        run(Seq::empty(), frags).1.len() == 1,
        run(Seq::empty(), frags).1[0].associate_id == a,
        run(Seq::empty(), frags).1[0].payload == concat_slots(
            Seq::new(n as nat, |j: int| Some(last_payload(frags, j))),
        ),
        run(Seq::empty(), frags).0 == Seq::<BufferModel>::empty(),
{
    let t0 = Seq::<BufferModel>::empty();
    let f = frags[0];
    assert(frags.len() >= 2) by {
        assert(has_id(frags, 0));
        assert(has_id(frags, 1));
        let k0 = choose|k: int| 0 <= k < frags.len() && frags[k].frag_id == 0;
        let k1 = choose|k: int| 0 <= k < frags.len() && frags[k].frag_id == 1;
        assert(k0 != k1);
    }
    assert(find_buffer(t0, a, p) == -1);
    let e = new_buffer(f);
    assert(step(t0, f).0 == t0.push(e));
    assert(step(t0, f).1 is None);
    assert(t0.push(e) =~= seq![e]);
    let rest = frags.drop_first();
    assert(rest.last() == frags.last());
    assert(e.slots[frags.last().frag_id as int] is None) by {
        assert(f.frag_id != frags.last().frag_id);
    }
    assert forall|k: int| 0 <= k < rest.len() implies frag_keyed(#[trigger] rest[k], a, p, n) by {
        assert(rest[k] == frags[k + 1]);
    }
    assert forall|k: int| 0 <= k < rest.len() - 1 implies (#[trigger] rest[k]).frag_id
        != rest.last().frag_id by {
        assert(rest[k] == frags[k + 1]);
    }
    assert forall|j: int| 0 <= j < n && e.slots[j] is None implies has_id(rest, j) by {
        assert(j != f.frag_id as int);
        assert(has_id(frags, j));
        let k = choose|k: int| 0 <= k < frags.len() && frags[k].frag_id == j;
        assert(k >= 1);
        assert(rest[k - 1].frag_id == j);
    }
    lemma_run_fill(e, rest, a, p, n);
    assert(run(t0, frags).0 == run(seq![e], rest).0);
    assert(run(t0, frags).1 =~= run(seq![e], rest).1);
    assert(fill_slots(e.slots, rest) =~= Seq::new(n as nat, |j: int| Some(last_payload(frags, j))))
        by {
        assert forall|j: int| 0 <= j < n implies fill_slots(e.slots, rest)[j] == Some(
            last_payload(frags, j),
        ) by {
            if has_id(rest, j) {
                lemma_last_payload_tail(frags, j);
            } else {
                assert(has_id(frags, j));
                let k = choose|k: int| 0 <= k < frags.len() && frags[k].frag_id == j;
                assert forall|k2: int| 1 <= k2 < frags.len() implies frags[k2].frag_id != j by {
                    if frags[k2].frag_id == j {
                        assert(rest[k2 - 1].frag_id == j);
                    }
                }
                assert(k == 0);
                assert(j == f.frag_id as int);
                lemma_last_payload_head(frags, j);
                assert(e.slots[j] == Some(f.packet.data));
            }
        }
    }
}

/// An unsplit packet (`frag_total == 1`) is delivered immediately, exactly
/// as received, and the reassembly table is not touched.
pub proof fn lemma_unsplit_immediate(t: Seq<BufferModel>, f: FragModel)
    requires
        f.frag_total == 1,
    ensures
        step(t, f).0 == t,
        step(t, f).1 == Some(delivery_of(f.packet.associate_id, f.packet.address, f.packet.data)),
{
}

/// The buffer a table holds for one packet key, if any.
pub open spec fn lookup(t: Seq<BufferModel>, a: u32, p: u16) -> Option<BufferModel> {
    let i = find_buffer(t, a, p);
    if i >= 0 {
        Some(t[i])
    } else {
        None
    }
}

/// Packets with distinct keys reassemble independently: one fragment's step
/// — inserting, completing and delivering, or opening a buffer — leaves
/// every other key's buffer exactly as it was.
pub proof fn lemma_step_preserves_other_keys(
    t: Seq<BufferModel>,
    f: FragModel,
    a2: u32,
    p2: u16,
)
    requires
        table_wf(t),
        frag_wf(f),
        !(f.packet.associate_id == a2 && f.packet.id == p2),
    ensures
        lookup(step(t, f).0, a2, p2) == lookup(t, a2, p2),
{
    let a = f.packet.associate_id;
    let p = f.packet.id;
    lemma_find_buffer(t, a2, p2);
    lemma_find_buffer(t, a, p);
    let t1 = step(t, f).0;
    lemma_find_buffer(t1, a2, p2);
    let j0 = find_buffer(t, a2, p2);
    let j1 = find_buffer(t1, a2, p2);
    if f.frag_total == 1 {
    } else {
        let i = find_buffer(t, a, p);
        if i < 0 {
            // t1 == t.push(new_buffer(f)); the pushed buffer has key (a, p).
            assert(t1 =~= t.push(new_buffer(f)));
            if j0 >= 0 {
                assert(t1[j0] == t[j0]);
                assert(j1 >= 0);
                assert(j1 <= j0) by {
                    if j1 > j0 {
                        assert(!buf_key_matches(t1[j0], a2, p2));
                    }
                }
                assert(t1[j1] == t[j1]);
                assert(j1 >= j0) by {
                    if j1 < j0 {
                        assert(!buf_key_matches(t[j1], a2, p2));
                    }
                }
                assert(lookup(t1, a2, p2) == lookup(t, a2, p2));
            } else {
                assert(!buf_key_matches(new_buffer(f), a2, p2));
                if j1 >= 0 {
                    assert(buf_key_matches(t1[j1], a2, p2));
                    if j1 < t.len() {
                        assert(!buf_key_matches(t[j1], a2, p2));
                    } else {
                        assert(t1[j1] == new_buffer(f));
                    }
                    assert(false);
                }
            }
        } else if t[i].frag_total != f.frag_total {
        } else {
            assert(buf_key_matches(t[i], a, p));
            assert(!buf_key_matches(t[i], a2, p2));
            let e2 = insert_frag(t[i], f);
            assert(!buf_key_matches(e2, a2, p2));
            if all_slots_full(e2.slots) {
                // t1 == t.remove(i): every other key's buffer survives.
                assert(t1 =~= t.remove(i));
                if j0 >= 0 {
                    assert(j0 != i);
                    let jm: int = if j0 < i {
                        j0
                    } else {
                        j0 - 1
                    };
                    assert(t1[jm] == t[j0]);
                    assert(j1 >= 0);
                    assert(buf_key_matches(t1[j1], a2, p2));
                    let back: int = if j1 < i {
                        j1
                    } else {
                        j1 + 1
                    };
                    assert(t1[j1] == t[back]);
                    assert(buf_key_matches(t[back], a2, p2));
                    assert(back == j0) by {
                        if back < j0 {
                            assert(!buf_key_matches(t[back], a2, p2));
                        } else if back > j0 {
                            assert(!buf_key_matches(t[j0], t[back].associate_id, t[back].packet_id));
                        }
                    }
                    assert(lookup(t1, a2, p2) == lookup(t, a2, p2));
                } else {
                    if j1 >= 0 {
                        let back: int = if j1 < i {
                            j1
                        } else {
                            j1 + 1
                        };
                        assert(t1[j1] == t[back]);
                        assert(!buf_key_matches(t[back], a2, p2));
                        assert(false);
                    }
                }
            } else {
                // t1 == t.update(i, e2): the buffer at i keeps its key.
                assert(t1 =~= t.update(i, e2));
                if j0 >= 0 {
                    assert(j0 != i);
                    assert(t1[j0] == t[j0]);
                    assert(j1 >= 0);
                    assert(j1 <= j0) by {
                        if j1 > j0 {
                            assert(!buf_key_matches(t1[j0], a2, p2));
                        }
                    }
                    assert(j1 != i);
                    assert(t1[j1] == t[j1]);
                    assert(j1 >= j0) by {
                        if j1 < j0 {
                            assert(!buf_key_matches(t[j1], a2, p2));
                        }
                    }
                    assert(lookup(t1, a2, p2) == lookup(t, a2, p2));
                } else {
                    if j1 >= 0 {
                        assert(buf_key_matches(t1[j1], a2, p2));
                        assert(j1 != i);
                        assert(t1[j1] == t[j1]);
                        assert(false);
                    }
                }
            }
        }
    }
}

} // verus!
