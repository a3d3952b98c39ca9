//! Interface listings: parsing the text of `ip link` / `ip addr` into records,
//! and picking out the veth endpoints among them.
use vstd::prelude::*;
use vstd::slice::slice_subrange;
use crate::text::{
    all_digits, chars_of, decimal_value, is_blank, is_u32_decimal, lines, parse_u32,
    parse_word_u32, split_lines, split_words, string_of, words, all_digits_in, prefix_of,
};

verus! {

/// What a record states, with every string as its characters.
pub struct IntfView {
    pub name: Seq<char>,
    pub ifindex: u32,
    pub peer_ifindex: Option<u32>,
    pub bridge: Option<Seq<char>>,
    pub mtu: u32,
    pub mac_address: Seq<char>,
    pub ip_address: Option<Seq<char>>,
}

pub open spec fn opt_view(o: Option<String>) -> Option<Seq<char>> {
    match o {
        Some(s) => Some(s@),
        None => None,
    }
}

/// One interface of a listing. `peer_ifindex` is present exactly when the listing
/// named the interface with an `@if<N>` peer annotation.
#[derive(Debug, PartialEq, Eq)]
pub struct IntfRecord {
    pub name: String,
    pub ifindex: u32,
    pub peer_ifindex: Option<u32>,
    pub bridge: Option<String>,
    pub mtu: u32,
    pub mac_address: String,
    pub ip_address: Option<String>,
}

impl View for IntfRecord {
    type V = IntfView;

    open spec fn view(&self) -> IntfView {
        IntfView {
            name: self.name@,
            ifindex: self.ifindex,
            peer_ifindex: self.peer_ifindex,
            bridge: opt_view(self.bridge),
            mtu: self.mtu,
            mac_address: self.mac_address@,
            ip_address: opt_view(self.ip_address),
        }
    }
}

/// A host-side veth endpoint: an interface together with the index of its peer.
#[derive(Debug, PartialEq, Eq)]
pub struct VethIntf {
    pub name: String,
    pub ifindex: u32,
    pub peer_ifindex: u32,
    pub bridge: Option<String>,
    pub mtu: u32,
    pub mac_address: String,
    pub ip_address: Option<String>,
}

impl View for VethIntf {
    type V = IntfView;

    open spec fn view(&self) -> IntfView {
        IntfView {
            name: self.name@,
            ifindex: self.ifindex,
            peer_ifindex: Some(self.peer_ifindex),
            bridge: opt_view(self.bridge),
            mtu: self.mtu,
            mac_address: self.mac_address@,
            ip_address: opt_view(self.ip_address),
        }
    }
}

pub open spec fn word_views(ws: Seq<Vec<char>>) -> Seq<Seq<char>> {
    ws.map_values(|w: Vec<char>| w@)
}

pub open spec fn mtu_word() -> Seq<char> {
    seq!['m', 't', 'u']
}

pub open spec fn master_word() -> Seq<char> {
    seq!['m', 'a', 's', 't', 'e', 'r']
}

pub open spec fn ends_with_colon(w: Seq<char>) -> bool {
    w.len() > 0 && w.last() == ':'
}

/// The position of the last `@` among the first `i` characters of `f`, or -1.
pub open spec fn last_at(f: Seq<char>, i: int) -> int
    decreases i,
{
    if i <= 0 {
        -1
    } else if f[i - 1] == '@' {
        i - 1
    } else {
        last_at(f, i - 1)
    }
}

/// Where the name field `f` ends in a peer annotation `@if<digits>`, the position of
/// its `@`; otherwise -1.
pub open spec fn peer_mark(f: Seq<char>) -> int {
    let p = last_at(f, f.len() as int);
    if p >= 0 && p + 3 < f.len() && f[p + 1] == 'i' && f[p + 2] == 'f' && all_digits(
        f.subrange(p + 3, f.len() as int),
    ) {
        p
    } else {
        -1
    }
}

/// The first position at or after `k` where `ws` holds the word `w`, or -1.
pub open spec fn find_word(ws: Seq<Seq<char>>, w: Seq<char>, k: int) -> int
    decreases ws.len() - k,
{
    if k < 0 || k >= ws.len() {
        -1
    } else if ws[k] == w {
        k
    } else {
        find_word(ws, w, k + 1)
    }
}

/// The record that a header line with words `ws` opens, or `None` where the line is
/// not a well-formed header:
/// `<ifindex>: <name>[@if<peer>]: <flags> ... mtu <mtu> ... [master <bridge>] ...`.
pub open spec fn header_view(ws: Seq<Seq<char>>) -> Option<IntfView> {
    if ws.len() >= 2 && ends_with_colon(ws[0]) && is_u32_decimal(ws[0].drop_last())
        && ends_with_colon(ws[1]) {
        let f = ws[1].drop_last();
        let p = peer_mark(f);
        let name = if p >= 0 {
            f.subrange(0, p)
        } else {
            f
        };
        let m = find_word(ws, mtu_word(), 2);
        let b = find_word(ws, master_word(), 2);
        if name.len() > 0 && (p < 0 || is_u32_decimal(f.subrange(p + 3, f.len() as int))) && m
            >= 0 && m + 1 < ws.len() && is_u32_decimal(ws[m + 1]) {
            Some(
                IntfView {
                    name,
                    ifindex: decimal_value(ws[0].drop_last()) as u32,
                    peer_ifindex: if p >= 0 {
                        Some(decimal_value(f.subrange(p + 3, f.len() as int)) as u32)
                    } else {
                        None
                    },
                    bridge: if b >= 0 && b + 1 < ws.len() {
                        Some(ws[b + 1])
                    } else {
                        None
                    },
                    mtu: decimal_value(ws[m + 1]) as u32,
                    mac_address: Seq::empty(),
                    ip_address: None,
                },
            )
        } else {
            None
        }
    } else {
        None
    }
}

fn mtu_keyword() -> (r: Vec<char>)
    ensures
        r@ == mtu_word(),
{
    let mut v: Vec<char> = Vec::new();
    v.push('m');
    v.push('t');
    v.push('u');
    assert(v@ =~= mtu_word());
    v
}

fn master_keyword() -> (r: Vec<char>)
    ensures
        r@ == master_word(),
{
    let mut v: Vec<char> = Vec::new();
    v.push('m');
    v.push('a');
    v.push('s');
    v.push('t');
    v.push('e');
    v.push('r');
    assert(v@ =~= master_word());
    v
}

fn same_chars(a: &Vec<char>, b: &Vec<char>) -> (r: bool)
    ensures
        r == (a@ == b@),
{
    if a.len() != b.len() {
        return false;
    }
    let mut i: usize = 0;
    while i < a.len()
        invariant
            a.len() == b.len(),
            i <= a.len(),
            forall|k: int| 0 <= k < i ==> a@[k] == b@[k],
        decreases a.len() - i,
    {
        if a[i] != b[i] {
            return false;
        }
        i = i + 1;
    }
    assert(a@ =~= b@);
    true
}

fn find_word_from(ws: &Vec<Vec<char>>, w: &Vec<char>, k: usize) -> (r: Option<usize>)
    ensures
        match r {
            Some(j) => find_word(word_views(ws@), w@, k as int) == j as int && j < ws.len(),
            None => find_word(word_views(ws@), w@, k as int) == -1,
        },
{
    let ghost wv = word_views(ws@);
    let mut i: usize = k;
    while i < ws.len()
        invariant
            k <= i,
            wv == word_views(ws@),
            find_word(wv, w@, k as int) == find_word(wv, w@, i as int),
        decreases ws.len() - i,
    {
        assert(wv[i as int] == ws[i as int]@);
        if same_chars(&ws[i], w) {
            return Some(i);
        }
        i = i + 1;
    }
    None
}

fn find_last_at(f: &Vec<char>) -> (r: Option<usize>)
    ensures
        match r {
            Some(p) => last_at(f@, f.len() as int) == p as int && p < f.len(),
            None => last_at(f@, f.len() as int) == -1,
        },
{
    let mut i: usize = f.len();
    while i > 0
        invariant
            i <= f.len(),
            last_at(f@, f.len() as int) == last_at(f@, i as int),
        decreases i,
    {
        if f[i - 1] == '@' {
            return Some(i - 1);
        }
        i = i - 1;
    }
    None
}

/// Parses the words of a header line into the record it opens.
pub fn parse_header(ws: &Vec<Vec<char>>) -> (r: Option<IntfRecord>)
    ensures
        match r {
            Some(rec) => header_view(word_views(ws@)) == Some(rec@),
            None => header_view(word_views(ws@)) is None,
        },
{
    let ghost wv = word_views(ws@);
    if ws.len() < 2 {
        return None;
    }
    assert(wv[0] == ws[0]@ && wv[1] == ws[1]@);
    let w0 = &ws[0];
    let w1 = &ws[1];
    if w0.len() == 0 || w0[w0.len() - 1] != ':' || w1.len() == 0 || w1[w1.len() - 1] != ':' {
        return None;
    }
    let ifindex = match parse_u32(w0, 0, w0.len() - 1) {
        Some(v) => v,
        None => {
            assert(w0@.subrange(0, w0.len() - 1) =~= w0@.drop_last());
            return None;
        },
    };
    assert(w0@.subrange(0, w0.len() - 1) =~= w0@.drop_last());
    let fv = prefix_of(w1, w1.len() - 1);
    let ghost fs = w1@.drop_last();
    assert(fv@ =~= fs);
    let n = fv.len();
    let mut peer: Option<u32> = None;
    let mut name_len: usize = n;
    match find_last_at(&fv) {
        Some(q) => {
            if n - q > 3 && fv[q + 1] == 'i' && fv[q + 2] == 'f' && all_digits_in(&fv, q + 3, n) {
                match parse_u32(&fv, q + 3, n) {
                    Some(v) => {
                        peer = Some(v);
                        name_len = q;
                    },
                    None => {
                        return None;
                    },
                }
            }
        },
        None => {},
    }
    assert(peer is Some ==> peer_mark(fs) == name_len);
    assert(peer is None ==> peer_mark(fs) == -1);
    if name_len == 0 {
        return None;
    }
    let mtu_kw = mtu_keyword();
    let m = match find_word_from(ws, &mtu_kw, 2) {
        Some(m) => m,
        None => {
            return None;
        },
    };
    if m + 1 >= ws.len() {
        return None;
    }
    assert(wv[m + 1] == ws[m + 1 as int]@);
    let mtu = match parse_word_u32(&ws[m + 1]) {
        Some(v) => v,
        None => {
            return None;
        },
    };
    let master_kw = master_keyword();
    let bridge = match find_word_from(ws, &master_kw, 2) {
        Some(b) => {
            if b + 1 < ws.len() {
                assert(wv[b + 1] == ws[b + 1 as int]@);
                Some(string_of(ws[b + 1].as_slice()))
            } else {
                None
            }
        },
        None => None,
    };
    let name = string_of(slice_subrange(fv.as_slice(), 0, name_len));
    assert(name@ =~= if peer is Some { fs.subrange(0, name_len as int) } else { fs });
    let rec = IntfRecord {
        name,
        ifindex,
        peer_ifindex: peer,
        bridge,
        mtu,
        mac_address: String::new(),
        ip_address: None,
    };
    Some(rec)
}

/// The parser between two lines: the records already finished and the one whose
/// detail lines are being read.
pub struct ParseState {
    pub done: Seq<IntfView>,
    pub cur: Option<IntfView>,
}

/// A line that starts a new interface block: non-empty and not indented.
pub open spec fn is_header_line(l: Seq<char>) -> bool {
    l.len() > 0 && !is_blank(l[0])
}

/// A word of the form `link/<type>`, which precedes the link-layer address.
pub open spec fn link_word(w: Seq<char>) -> bool {
    w.len() >= 5 && w.take(5) == seq!['l', 'i', 'n', 'k', '/']
}

/// The word `inet` or `inet6`, which precedes an address in CIDR notation.
pub open spec fn inet_word(w: Seq<char>) -> bool {
    w == seq!['i', 'n', 'e', 't'] || w == seq!['i', 'n', 'e', 't', '6']
}

/// A line whose first two words are `inet`/`inet6` and an address.
pub open spec fn is_address_line(l: Seq<char>) -> bool {
    words(l).len() >= 2 && inet_word(words(l)[0])
}

/// The records of a state once the one under construction is closed.
pub open spec fn closed(st: ParseState) -> Seq<IntfView> {
    match st.cur {
        Some(r) => st.done.push(r),
        None => st.done,
    }
}

/// One line of input: a header closes the current record and opens the next (or fails
/// when malformed); a `link/...` line sets the link-layer address; the first address
/// line of a block sets the address; every other line leaves the state unchanged.
pub open spec fn step(st: ParseState, line: Seq<char>) -> Option<ParseState> {
    let ws = words(line);
    if is_header_line(line) {
        match header_view(ws) {
            Some(r) => Some(ParseState { done: closed(st), cur: Some(r) }),
            None => None,
        }
    } else {
        match st.cur {
            Some(r) => if ws.len() >= 2 && link_word(ws[0]) {
                Some(ParseState { done: st.done, cur: Some(IntfView { mac_address: ws[1], ..r }) })
            } else if ws.len() >= 2 && inet_word(ws[0]) && r.ip_address is None {
                Some(ParseState { done: st.done, cur: Some(IntfView { ip_address: Some(ws[1]), ..r }) })
            } else {
                Some(st)
            },
            None => Some(st),
        }
    }
}

/// The state after the first `i` lines, or the position of the first malformed header.
pub open spec fn run(ls: Seq<Seq<char>>, i: int) -> Result<ParseState, int>
    decreases i,
{
    if i <= 0 {
        Ok(ParseState { done: Seq::empty(), cur: None })
    } else {
        match run(ls, i - 1) {
            Err(k) => Err(k),
            Ok(st) => match step(st, ls[i - 1]) {
                Some(next) => Ok(next),
                None => Err(i - 1),
            },
        }
    }
}

/// The records of a listing, in the order of their headers, or the (zero-based) line
/// number of the first malformed header.
pub open spec fn parse_view(text: Seq<char>) -> Result<Seq<IntfView>, int> {
    match run(lines(text), lines(text).len() as int) {
        Ok(st) => Ok(closed(st)),
        Err(k) => Err(k),
    }
}

pub open spec fn record_views(rs: Seq<IntfRecord>) -> Seq<IntfView> {
    rs.map_values(|r: IntfRecord| r@)
}

/// A listing held a header line that could not be read as `<index>: <name>: ... mtu <mtu>`.
#[derive(Debug, PartialEq, Eq)]
pub struct ParseError {
    /// One-based number of the offending line.
    pub line_number: usize,
    pub line: String,
}

proof fn lemma_run_err_persists(ls: Seq<Seq<char>>, i: int, n: int)
    requires
        0 <= i < n,
        run(ls, i + 1) == Err::<ParseState, int>(i),
    ensures
        run(ls, n) == Err::<ParseState, int>(i),
    decreases n,
{
    if n > i + 1 {
        lemma_run_err_persists(ls, i, n - 1);
    }
}

fn is_link_word(w: &Vec<char>) -> (r: bool)
    ensures
        r == link_word(w@),
{
    let r = w.len() >= 5 && w[0] == 'l' && w[1] == 'i' && w[2] == 'n' && w[3] == 'k' && w[4] == '/';
    if w.len() >= 5 {
        assert(r ==> w@.take(5) =~= seq!['l', 'i', 'n', 'k', '/']);
        assert(w@.take(5) == seq!['l', 'i', 'n', 'k', '/'] ==> w@.take(5)[4] == '/');
    }
    r
}

fn is_inet_word(w: &Vec<char>) -> (r: bool)
    ensures
        r == inet_word(w@),
{
    let r = (w.len() == 4 || w.len() == 5) && w[0] == 'i' && w[1] == 'n' && w[2] == 'e' && w[3]
        == 't' && (w.len() == 4 || w[4] == '6');
    assert(w@ == seq!['i', 'n', 'e', 't'] ==> w@[3] == 't');
    assert(w@ == seq!['i', 'n', 'e', 't', '6'] ==> w@[4] == '6');
    if r {
        if w.len() == 4 {
            assert(w@ =~= seq!['i', 'n', 'e', 't']);
        } else {
            assert(w@ =~= seq!['i', 'n', 'e', 't', '6']);
        }
    }
    r
}

/// Parses the text of an interface listing (`ip link` or `ip addr` output) into one
/// record per interface, in the order of the listing.
pub fn parse_printout(text: &str) -> (r: Result<Vec<IntfRecord>, ParseError>)
    ensures
        match parse_view(text@) {
            Ok(v) => r is Ok && record_views(r->Ok_0@) == v,
            Err(k) => r is Err && r->Err_0.line_number == k + 1 && r->Err_0.line@ == lines(
                text@,
            )[k],
        },
{
    let chars = chars_of(text);
    let ls = split_lines(&chars);
    let ghost lv = lines(text@);
    let mut done: Vec<IntfRecord> = Vec::new();
    let mut cur = IntfRecord {
        name: String::new(),
        ifindex: 0,
        peer_ifindex: None,
        bridge: None,
        mtu: 0,
        mac_address: String::new(),
        ip_address: None,
    };
    let mut has_cur = false;
    let mut i: usize = 0;
    assert(record_views(done@) =~= Seq::<IntfView>::empty());
    while i < ls.len()
        invariant
            i <= ls.len() == lv.len(),
            lv == lines(text@),
            forall|k: int| 0 <= k < ls.len() ==> #[trigger] ls[k]@ == lv[k],
            run(lv, i as int) == Ok::<ParseState, int>(
                (ParseState {
                    done: record_views(done@),
                    cur: if has_cur {
                        Some(cur@)
                    } else {
                        None
                    },
                }),
            ),
        decreases ls.len() - i,
    {
        let line = &ls[i];
        assert(line@ == lv[i as int]);
        let ws = split_words(line);
        assert(word_views(ws@) =~= words(line@));
        let ghost old_done = done@;
        let ghost old_has = has_cur;
        let ghost old_cur = cur@;
        if line.len() > 0 && !(line[0] == ' ' || line[0] == '\t' || line[0] == '\r') {
            match parse_header(&ws) {
                Some(rec) => {
                    if has_cur {
                        done.push(cur);
                    }
                    cur = rec;
                    has_cur = true;
                    assert(record_views(done@) =~= if old_has { record_views(old_done).push(old_cur) } else { record_views(old_done) });
                },
                None => {
                    proof {
                        lemma_run_err_persists(lv, i as int, lv.len() as int);
                    }
                    return Err(ParseError { line_number: i + 1, line: string_of(line.as_slice()) });
                },
            }
        } else if has_cur {
            if ws.len() >= 2 && is_link_word(&ws[0]) {
                cur.mac_address = string_of(ws[1].as_slice());
            } else if ws.len() >= 2 && is_inet_word(&ws[0]) && cur.ip_address.is_none() {
                cur.ip_address = Some(string_of(ws[1].as_slice()));
            }
        }
        i = i + 1;
    }
    if has_cur {
        done.push(cur);
    }
    Ok(done)
}

/// The veth endpoints among `rs`: the records that carry a peer index, in order.
pub open spec fn veths(rs: Seq<IntfView>) -> Seq<IntfView>
    decreases rs.len(),
{
    if rs.len() == 0 {
        Seq::empty()
    } else {
        let v = veths(rs.drop_last());
        if rs.last().peer_ifindex is Some {
            v.push(rs.last())
        } else {
            v
        }
    }
}

pub open spec fn veth_views(vs: Seq<VethIntf>) -> Seq<IntfView> {
    vs.map_values(|v: VethIntf| v@)
}

fn copy_opt(o: &Option<String>) -> (r: Option<String>)
    ensures
        opt_view(r) == opt_view(*o),
{
    match o {
        Some(s) => Some(s.clone()),
        None => None,
    }
}

/// Keeps the records that name a peer interface, that is the veth endpoints, in the
/// order given.
pub fn resolve(records: &Vec<IntfRecord>) -> (r: Vec<VethIntf>)
    ensures
        veth_views(r@) == veths(record_views(records@)),
{
    let ghost rv = record_views(records@);
    let mut out: Vec<VethIntf> = Vec::new();
    let mut i: usize = 0;
    assert(rv.take(0) =~= Seq::<IntfView>::empty());
    assert(veth_views(out@) =~= Seq::<IntfView>::empty());
    while i < records.len()
        invariant
            i <= records.len(),
            rv == record_views(records@),
            veth_views(out@) == veths(rv.take(i as int)),
        decreases records.len() - i,
    {
        let rec = &records[i];
        assert(rv.take(i + 1).drop_last() =~= rv.take(i as int));
        assert(rv.take(i + 1).last() == rec@);
        let ghost old_out = out@;
        match rec.peer_ifindex {
            Some(peer) => {
                let v = VethIntf {
                    name: rec.name.clone(),
                    ifindex: rec.ifindex,
                    peer_ifindex: peer,
                    bridge: copy_opt(&rec.bridge),
                    mtu: rec.mtu,
                    mac_address: rec.mac_address.clone(),
                    ip_address: copy_opt(&rec.ip_address),
                };
                out.push(v);
                assert(veth_views(out@) =~= veth_views(old_out).push(rec@));
            },
            None => {},
        }
        i = i + 1;
    }
    assert(rv.take(records.len() as int) =~= rv);
    out
}

/// Parses an interface listing and returns its veth endpoints, in the order of the
/// listing.
pub fn parse_ip_link_or_addr_printout(text: &str) -> (r: Result<Vec<VethIntf>, ParseError>)
    ensures
        match parse_view(text@) {
            Ok(v) => r is Ok && veth_views(r->Ok_0@) == veths(v),
            Err(k) => r is Err && r->Err_0.line_number == k + 1 && r->Err_0.line@ == lines(
                text@,
            )[k],
        },
{
    match parse_printout(text) {
        Ok(records) => Ok(resolve(&records)),
        Err(e) => Err(e),
    }
}

} // verus!
