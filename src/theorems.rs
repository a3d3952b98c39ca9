//! General facts about parsing listings and picking out veth endpoints.
use vstd::prelude::*;
use crate::iface::{
    closed, header_view, is_address_line, is_header_line, parse_view, run, step, veths,
    IntfView, ParseState,
};
use crate::text::{lines, words};

verus! {

/// The interface indices of the well-formed header lines among the first `i` lines.
pub open spec fn header_indices(ls: Seq<Seq<char>>, i: int) -> Seq<u32>
    decreases i,
{
    if i <= 0 {
        Seq::empty()
    } else {
        let h = header_indices(ls, i - 1);
        if is_header_line(ls[i - 1]) && header_view(words(ls[i - 1])) is Some {
            h.push(header_view(words(ls[i - 1]))->Some_0.ifindex)
        } else {
            h
        }
    }
}

pub open spec fn ifindices(rs: Seq<IntfView>) -> Seq<u32> {
    rs.map_values(|r: IntfView| r.ifindex)
}

pub open spec fn pairwise_distinct(s: Seq<u32>) -> bool {
    forall|i: int, j: int| 0 <= i < s.len() && 0 <= j < s.len() && i != j ==> s[i] != s[j]
}

pub open spec fn no_address(rs: Seq<IntfView>) -> bool {
    forall|j: int| 0 <= j < rs.len() ==> (#[trigger] rs[j]).ip_address is None
}

proof fn lemma_run_ifindices(ls: Seq<Seq<char>>, i: int)
    requires
        0 <= i <= ls.len(),
    ensures
        run(ls, i) is Ok ==> ifindices(closed(run(ls, i)->Ok_0)) == header_indices(ls, i),
    decreases i,
{
    if i == 0 {
        assert(ifindices(Seq::<IntfView>::empty()) =~= Seq::<u32>::empty());
    } else {
        lemma_run_ifindices(ls, i - 1);
        if run(ls, i) is Ok {
            let st = run(ls, i - 1)->Ok_0;
            let next = run(ls, i)->Ok_0;
            let l = ls[i - 1];
            if is_header_line(l) {
                assert(ifindices(closed(next)) =~= ifindices(closed(st)).push(next.cur->Some_0.ifindex));
            } else if st.cur is Some {
                assert(ifindices(closed(next)) =~= ifindices(closed(st)));
            }
        }
    }
}

/// Parsing keeps the order of the listing: the records' interface indices are those of
/// the header lines, in the order in which the headers appear.
pub proof fn parse_keeps_header_order(text: Seq<char>)
    ensures
        parse_view(text) is Ok ==> ifindices(parse_view(text)->Ok_0) == header_indices(
            lines(text),
            lines(text).len() as int,
        ),
{
    lemma_run_ifindices(lines(text), lines(text).len() as int);
}

proof fn lemma_run_no_address(ls: Seq<Seq<char>>, i: int)
    requires
        0 <= i <= ls.len(),
        forall|k: int| 0 <= k < ls.len() ==> !is_address_line(#[trigger] ls[k]),
    ensures
        run(ls, i) is Ok ==> no_address(closed(run(ls, i)->Ok_0)),
    decreases i,
{
    if i > 0 {
        lemma_run_no_address(ls, i - 1);
        if run(ls, i) is Ok {
            let st = run(ls, i - 1)->Ok_0;
            let next = run(ls, i)->Ok_0;
            assert(!is_address_line(ls[i - 1]));
            assert(no_address(st.done)) by {
                assert forall|j: int| 0 <= j < st.done.len() implies (
                #[trigger] st.done[j]).ip_address is None by {
                    assert(closed(st)[j] == st.done[j]);
                }
            }
            if st.cur is Some {
                assert(closed(st).last() == st.cur->Some_0);
            }
        }
    }
}

/// In a listing without address lines (`ip link` output) no record carries an address.
pub proof fn link_only_listing_has_no_addresses(text: Seq<char>)
    requires
        forall|k: int| 0 <= k < lines(text).len() ==> !is_address_line(#[trigger] lines(text)[k]),
    ensures
        parse_view(text) is Ok ==> no_address(parse_view(text)->Ok_0),
{
    lemma_run_no_address(lines(text), lines(text).len() as int);
}

/// The veth endpoints are exactly the records that carry a peer index (from an `@if<N>`
/// annotation in their header), and each of them is one of the given records.
pub proof fn resolve_selects_peer_annotated(rs: Seq<IntfView>)
    ensures
        forall|x: IntfView| #[trigger] veths(rs).contains(x) <==> (rs.contains(x) && x.peer_ifindex is Some),
    decreases rs.len(),
{
    if rs.len() > 0 {
        let init = rs.drop_last();
        resolve_selects_peer_annotated(init);
        assert forall|x: IntfView| #[trigger] veths(rs).contains(x) <==> (rs.contains(x) && x.peer_ifindex is Some) by {
            let vi = veths(init);
            if rs.last().peer_ifindex is Some {
                assert(veths(rs) == vi.push(rs.last()));
                assert(veths(rs)[vi.len() as int] == rs.last());
            } else {
                assert(veths(rs) == vi);
            }
            if rs.contains(x) && x.peer_ifindex is Some {
                let k = choose|k: int| 0 <= k < rs.len() && rs[k] == x;
                if k < rs.len() - 1 {
                    assert(init[k] == x);
                    assert(vi.contains(x));
                    let m = choose|m: int| 0 <= m < vi.len() && vi[m] == x;
                    assert(veths(rs)[m] == x);
                } else {
                    assert(veths(rs)[vi.len() as int] == x);
                }
            }
            if veths(rs).contains(x) {
                let k = choose|k: int| 0 <= k < veths(rs).len() && veths(rs)[k] == x;
                if k < vi.len() {
                    assert(vi[k] == x);
                    assert(vi.contains(x));
                    let m = choose|m: int| 0 <= m < init.len() && init[m] == x;
                    assert(rs[m] == x);
                } else {
                    assert(rs[rs.len() - 1] == x);
                }
            }
        }
    }
}

proof fn lemma_veths_distinct(rs: Seq<IntfView>)
    requires
        pairwise_distinct(ifindices(rs)),
    ensures
        pairwise_distinct(ifindices(veths(rs))),
    decreases rs.len(),
{
    if rs.len() > 0 {
        let init = rs.drop_last();
        assert(ifindices(init) =~= ifindices(rs).drop_last());
        lemma_veths_distinct(init);
        if rs.last().peer_ifindex is Some {
            resolve_selects_peer_annotated(init);
            let v = veths(rs);
            let vi = veths(init);
            assert(v == vi.push(rs.last()));
            assert forall|i: int, j: int|
                0 <= i < ifindices(v).len() && 0 <= j < ifindices(v).len() && i != j implies
                ifindices(v)[i] != ifindices(v)[j] by {
                if i < vi.len() && j < vi.len() {
                    assert(ifindices(v)[i] == ifindices(vi)[i]);
                    assert(ifindices(v)[j] == ifindices(vi)[j]);
                } else {
                    let a = if i < vi.len() { i } else { j };
                    assert(vi.contains(vi[a]));
                    let k = choose|k: int| 0 <= k < init.len() && init[k] == vi[a];
                    assert(ifindices(rs)[k] == vi[a].ifindex);
                    assert(ifindices(rs)[rs.len() - 1] == rs.last().ifindex);
                }
            }
        }
    }
}

/// In a listing whose header lines carry pairwise distinct interface indices, the
/// parsed records, and the veth endpoints among them, have pairwise distinct indices.
pub proof fn parse_indices_distinct(text: Seq<char>)
    requires
        pairwise_distinct(header_indices(lines(text), lines(text).len() as int)),
    ensures
        parse_view(text) is Ok ==> pairwise_distinct(ifindices(parse_view(text)->Ok_0)),
        parse_view(text) is Ok ==> pairwise_distinct(ifindices(veths(parse_view(text)->Ok_0))),
{
    parse_keeps_header_order(text);
    if parse_view(text) is Ok {
        lemma_veths_distinct(parse_view(text)->Ok_0);
    }
}

proof fn lemma_run_ok_prefix(ls: Seq<Seq<char>>, i: int, n: int)
    requires
        0 <= i <= n,
        run(ls, n) is Ok,
    ensures
        run(ls, i) is Ok,
    decreases n - i,
{
    if i < n {
        lemma_run_ok_prefix(ls, i + 1, n);
    }
}

proof fn lemma_done_grows(ls: Seq<Seq<char>>, i: int, n: int)
    requires
        0 <= i <= n,
        run(ls, n) is Ok,
    ensures
        run(ls, i)->Ok_0.done.len() <= run(ls, n)->Ok_0.done.len(),
        forall|k: int|
            0 <= k < run(ls, i)->Ok_0.done.len() ==> #[trigger] run(ls, n)->Ok_0.done[k] == run(ls, i)->Ok_0.done[k],
    decreases n - i,
{
    lemma_run_ok_prefix(ls, i, n);
    if i < n {
        lemma_run_ok_prefix(ls, i + 1, n);
        lemma_done_grows(ls, i + 1, n);
        let st = run(ls, i)->Ok_0;
        if is_header_line(ls[i]) {
            assert forall|k: int| 0 <= k < st.done.len() implies #[trigger] closed(st)[k] == st.done[k] by {}
        }
    }
}

/// While the lines after the header at `h` are read, up to `i`, the record it opened
/// stays under construction and carries the address of `a` once `a` has been read.
proof fn lemma_block(ls: Seq<Seq<char>>, h: int, a: int, i: int)
    requires
        0 <= h < i <= ls.len(),
        run(ls, h) is Ok,
        is_header_line(ls[h]),
        header_view(words(ls[h])) is Some,
        forall|j: int| h < j < i ==> !is_header_line(#[trigger] ls[j]),
        h < a,
        is_address_line(ls[a]),
        forall|j: int| h < j < i && j != a ==> !is_address_line(#[trigger] ls[j]),
    ensures
        run(ls, i) is Ok,
        run(ls, i)->Ok_0.done == closed(run(ls, h)->Ok_0),
        run(ls, i)->Ok_0.cur is Some,
        run(ls, i)->Ok_0.cur->Some_0.ifindex == header_view(words(ls[h]))->Some_0.ifindex,
        run(ls, i)->Ok_0.cur->Some_0.ip_address == (if a < i {
            Some(words(ls[a])[1])
        } else {
            None::<Seq<char>>
        }),
    decreases i,
{
    if i > h + 1 {
        lemma_block(ls, h, a, i - 1);
        let l = ls[i - 1];
        assert(!is_header_line(l));
        if i - 1 != a {
            assert(!is_address_line(l));
        }
    }
}

/// While the lines after the header at `h` are read, up to `i`, the record it opened
/// stays under construction with the header's index, peer index and bridge.
proof fn lemma_block_fields(ls: Seq<Seq<char>>, h: int, i: int)
    requires
        0 <= h < i <= ls.len(),
        run(ls, h) is Ok,
        is_header_line(ls[h]),
        header_view(words(ls[h])) is Some,
        forall|j: int| h < j < i ==> !is_header_line(#[trigger] ls[j]),
    ensures
        run(ls, i) is Ok,
        run(ls, i)->Ok_0.done == closed(run(ls, h)->Ok_0),
        run(ls, i)->Ok_0.cur is Some,
        run(ls, i)->Ok_0.cur->Some_0.ifindex == header_view(words(ls[h]))->Some_0.ifindex,
        run(ls, i)->Ok_0.cur->Some_0.peer_ifindex == header_view(words(ls[h]))->Some_0.peer_ifindex,
        run(ls, i)->Ok_0.cur->Some_0.bridge == header_view(words(ls[h]))->Some_0.bridge,
    decreases i,
{
    if i > h + 1 {
        lemma_block_fields(ls, h, i - 1);
        assert(!is_header_line(ls[i - 1]));
    }
}

/// The record under construction when the block of the header at `h` ends at `e` is
/// the one at position `header_indices(ls, h).len()` of the parsed records.
proof fn lemma_block_emitted(ls: Seq<Seq<char>>, h: int, e: int)
    requires
        0 <= h < e <= ls.len(),
        run(ls, ls.len() as int) is Ok,
        is_header_line(ls[h]),
        forall|j: int| h < j < e ==> !is_header_line(#[trigger] ls[j]),
        e == ls.len() || is_header_line(ls[e]),
    ensures
        header_view(words(ls[h])) is Some,
        run(ls, e) is Ok,
        run(ls, e)->Ok_0.cur is Some,
        ({
            let v = closed(run(ls, ls.len() as int)->Ok_0);
            let k = header_indices(ls, h).len() as int;
            &&& 0 <= k < v.len()
            &&& v[k] == run(ls, e)->Ok_0.cur->Some_0
        }),
{
    let n = ls.len() as int;
    lemma_run_ok_prefix(ls, h + 1, n);
    lemma_run_ok_prefix(ls, h, n);
    assert(header_view(words(ls[h])) is Some);
    lemma_run_ifindices(ls, h);
    let k = header_indices(ls, h).len() as int;
    let sth = run(ls, h)->Ok_0;
    assert(closed(sth).len() == k);
    lemma_block_fields(ls, h, e);
    let ste = run(ls, e)->Ok_0;
    let r = ste.cur->Some_0;
    if e == n {
        assert(closed(ste)[k] == r);
    } else {
        lemma_run_ok_prefix(ls, e + 1, n);
        let st1 = run(ls, e + 1)->Ok_0;
        assert(st1.done == closed(ste));
        assert(st1.done[k] == r);
        lemma_done_grows(ls, e + 1, n);
        let stn = run(ls, n)->Ok_0;
        assert(stn.done[k] == r);
        if stn.cur is Some {
            assert(closed(stn)[k] == stn.done[k]);
        }
    }
}

/// Each well-formed header line opens a record of the parse that keeps the header's
/// interface index, peer index and bridge; where the header carries a peer
/// annotation, that record is among the veth endpoints.
pub proof fn header_record_is_kept(text: Seq<char>, h: int, e: int)
    requires
        0 <= h < e <= lines(text).len(),
        is_header_line(lines(text)[h]),
        forall|j: int| h < j < e ==> !is_header_line(#[trigger] lines(text)[j]),
        e == lines(text).len() || is_header_line(lines(text)[e]),
        parse_view(text) is Ok,
    ensures
        ({
            let v = parse_view(text)->Ok_0;
            let k = header_indices(lines(text), h).len() as int;
            let hv = header_view(words(lines(text)[h]))->Some_0;
            &&& 0 <= k < v.len()
            &&& v[k].ifindex == hv.ifindex
            &&& v[k].peer_ifindex == hv.peer_ifindex
            &&& v[k].bridge == hv.bridge
            &&& (hv.peer_ifindex is Some ==> veths(v).contains(v[k]))
        }),
{
    let ls = lines(text);
    lemma_block_emitted(ls, h, e);
    lemma_run_ok_prefix(ls, h, ls.len() as int);
    lemma_block_fields(ls, h, e);
    let v = parse_view(text)->Ok_0;
    let k = header_indices(ls, h).len() as int;
    assert(v.contains(v[k]));
    resolve_selects_peer_annotated(v);
}

/// An interface block holding exactly one address line: the record that its header
/// opens carries that line's address verbatim, and so does its entry among the veth
/// endpoints where the header carries a peer annotation.
pub proof fn single_address_is_kept(text: Seq<char>, h: int, a: int, e: int)
    requires
        0 <= h < a < e <= lines(text).len(),
        is_header_line(lines(text)[h]),
        forall|j: int| h < j < e ==> !is_header_line(#[trigger] lines(text)[j]),
        e == lines(text).len() || is_header_line(lines(text)[e]),
        is_address_line(lines(text)[a]),
        forall|j: int| h < j < e && j != a ==> !is_address_line(#[trigger] lines(text)[j]),
        parse_view(text) is Ok,
    ensures
        ({
            let v = parse_view(text)->Ok_0;
            let k = header_indices(lines(text), h).len() as int;
            let hv = header_view(words(lines(text)[h]))->Some_0;
            &&& 0 <= k < v.len()
            &&& v[k].ifindex == hv.ifindex
            &&& v[k].peer_ifindex == hv.peer_ifindex
            &&& v[k].ip_address == Some(words(lines(text)[a])[1])
            &&& (hv.peer_ifindex is Some ==> veths(v).contains(v[k]))
        }),
{
    let ls = lines(text);
    header_record_is_kept(text, h, e);
    lemma_block_emitted(ls, h, e);
    lemma_run_ok_prefix(ls, h, ls.len() as int);
    lemma_block(ls, h, a, e);
}

/// The interface indices of the well-formed header lines carrying a peer annotation
/// among the first `i` lines.
pub open spec fn veth_header_indices(ls: Seq<Seq<char>>, i: int) -> Seq<u32>
    decreases i,
{
    if i <= 0 {
        Seq::empty()
    } else {
        let h = veth_header_indices(ls, i - 1);
        if is_header_line(ls[i - 1]) && header_view(words(ls[i - 1])) is Some && header_view(
            words(ls[i - 1]),
        )->Some_0.peer_ifindex is Some {
            h.push(header_view(words(ls[i - 1]))->Some_0.ifindex)
        } else {
            h
        }
    }
}

proof fn lemma_veths_push(s: Seq<IntfView>, x: IntfView)
    ensures
        veths(s.push(x)) == (if x.peer_ifindex is Some {
            veths(s).push(x)
        } else {
            veths(s)
        }),
{
    assert(s.push(x).drop_last() =~= s);
}

proof fn lemma_run_veth_ifindices(ls: Seq<Seq<char>>, i: int)
    requires
        0 <= i <= ls.len(),
    ensures
        run(ls, i) is Ok ==> ifindices(veths(closed(run(ls, i)->Ok_0))) == veth_header_indices(
            ls,
            i,
        ),
    decreases i,
{
    if i == 0 {
        assert(ifindices(Seq::<IntfView>::empty()) =~= Seq::<u32>::empty());
    } else {
        lemma_run_veth_ifindices(ls, i - 1);
        if run(ls, i) is Ok {
            let st = run(ls, i - 1)->Ok_0;
            let next = run(ls, i)->Ok_0;
            let l = ls[i - 1];
            if is_header_line(l) {
                let r = next.cur->Some_0;
                lemma_veths_push(closed(st), r);
                if r.peer_ifindex is Some {
                    assert(ifindices(veths(closed(next))) =~= ifindices(veths(closed(st))).push(
                        r.ifindex,
                    ));
                }
            } else if st.cur is Some {
                let c = st.cur->Some_0;
                let c2 = next.cur->Some_0;
                lemma_veths_push(st.done, c);
                lemma_veths_push(st.done, c2);
                assert(ifindices(veths(closed(next))) =~= ifindices(veths(closed(st))));
            }
        }
    }
}

/// The veth endpoints keep the order of the listing: their interface indices are those
/// of the peer-annotated header lines, in the order in which the headers appear.
pub proof fn veth_list_keeps_header_order(text: Seq<char>)
    ensures
        parse_view(text) is Ok ==> ifindices(veths(parse_view(text)->Ok_0)) == veth_header_indices(
            lines(text),
            lines(text).len() as int,
        ),
{
    lemma_run_veth_ifindices(lines(text), lines(text).len() as int);
}

} // verus!
