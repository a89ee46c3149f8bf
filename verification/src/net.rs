//! Readers for the tables that `virsh domifaddr`, `virsh domiflist` and
//! `virsh net-dhcp-leases` print.
use vstd::prelude::*;

use crate::text::{
    ascii_fold, before_first, lemma_line_words_concat, words, chars_of, eq_ignore_ascii_case, eq_ignore_case, hex_digit, is_hex_digit,
    line_words, split_lines_words, split_once_first, lemma_len_before_bound,
};

verus! {

broadcast use vstd::string::group_string_axioms;

/// A MAC address written as six two-digit hexadecimal octets separated by colons.
pub open spec fn is_mac(s: Seq<char>) -> bool {
    &&& s.len() == 17
    &&& forall|i: int|
        0 <= i < 17 ==> if i % 3 == 2 {
            #[trigger] s[i] == ':'
        } else {
            is_hex_digit(s[i])
        }
}

/// Six two-digit octets of hexadecimal digits, any of `0`-`9`, `a`-`f`, `A`-`F`, joined by
/// colons make a MAC address; a 17-character text with anything else in a digit place, or
/// anything but a colon between octets, does not.
pub proof fn law_mac_digits(s: Seq<char>)
    requires
        s.len() == 17,
    ensures
        is_mac(s) <==> forall|i: int|
            0 <= i < 17 ==> if i % 3 == 2 {
                #[trigger] s[i] == ':'
            } else {
                ('0' <= s[i] && s[i] <= '9') || ('a' <= s[i] && s[i] <= 'f') || ('A' <= s[i]
                    && s[i] <= 'F')
            },
{
}

/// Strict MAC format check: exactly six hexadecimal octets of two digits each.
pub fn looks_like_mac(mac: &str) -> (r: bool)
    ensures
        r == is_mac(mac@),
{
    let cs = chars_of(mac);
    if cs.len() != 17 {
        return false;
    }
    let mut i: usize = 0;
    while i < 17
        invariant
            cs@ == mac@,
            cs@.len() == 17,
            i <= 17,
            forall|k: int|
                0 <= k < i ==> if k % 3 == 2 {
                    #[trigger] cs@[k] == ':'
                } else {
                    is_hex_digit(cs@[k])
                },
        decreases 17 - i,
    {
        let ok = if i % 3 == 2 {
            cs[i] == ':'
        } else {
            hex_digit(cs[i])
        };
        if !ok {
            return false;
        }
        i = i + 1;
    }
    true
}

/// A guest network interface card: the network it is attached to and its MAC address.
#[derive(Debug, PartialEq, Eq)]
pub struct Interface {
    pub network: String,
    pub mac: String,
}

/// What an `Interface` holds, as text.
pub struct InterfaceView {
    pub network: Seq<char>,
    pub mac: Seq<char>,
}

impl View for Interface {
    type V = InterfaceView;

    open spec fn view(&self) -> InterfaceView {
        InterfaceView { network: self.network@, mac: self.mac@ }
    }
}

impl Clone for Interface {
    fn clone(&self) -> (r: Self)
        ensures
            r@ == self@,
    {
        Interface { network: self.network.clone(), mac: self.mac.clone() }
    }
}

/// The values present in `s`, in order.
pub open spec fn present<A>(s: Seq<Option<A>>) -> Seq<A>
    decreases s.len(),
{
    if s.len() == 0 {
        seq![]
    } else {
        let r = present(s.drop_last());
        match s.last() {
            Some(a) => r.push(a),
            None => r,
        }
    }
}

/// Every value present in `s` has the property `p` when every `Some` in `s` has it.
pub proof fn lemma_present_all<A>(s: Seq<Option<A>>, p: spec_fn(A) -> bool)
    requires
        forall|j: int| 0 <= j < s.len() && (#[trigger] s[j]) is Some ==> p(s[j]->0),
    ensures
        forall|i: int| 0 <= i < present(s).len() ==> p(#[trigger] present(s)[i]),
    decreases s.len(),
{
    if s.len() > 0 {
        let t = s.drop_last();
        assert forall|j: int| 0 <= j < t.len() && (#[trigger] t[j]) is Some implies p(t[j]->0) by {
            assert(t[j] == s[j]);
        }
        lemma_present_all(t, p);
        assert(s.last() == s[s.len() - 1]);
        let pt = present(t);
        assert forall|i: int| 0 <= i < present(s).len() implies p(#[trigger] present(s)[i]) by {
            if i < pt.len() {
                assert(present(s)[i] == pt[i]);
            }
        }
    }
}

/// Taking one more element of `s` adds its value, if any, to what is present.
pub proof fn lemma_present_take<A>(s: Seq<Option<A>>, i: int)
    requires
        0 <= i < s.len(),
    ensures
        present(s.take(i + 1)) == match s[i] {
            Some(a) => present(s.take(i)).push(a),
            None => present(s.take(i)),
        },
{
    assert(s.take(i + 1).drop_last() =~= s.take(i));
}

/// What is present in two sequences one after the other is what is present in each.
pub proof fn lemma_present_concat<A>(s1: Seq<Option<A>>, s2: Seq<Option<A>>)
    ensures
        present(s1 + s2) == present(s1) + present(s2),
    decreases s2.len(),
{
    if s2.len() == 0 {
        assert(s1 + s2 =~= s1);
        assert(present(s1) + present(s2) =~= present(s1));
    } else {
        assert((s1 + s2).drop_last() =~= s1 + s2.drop_last());
        assert((s1 + s2).last() == s2.last());
        lemma_present_concat(s1, s2.drop_last());
        match s2.last() {
            Some(x) => {
                assert(present(s1 + s2) =~= present(s1) + present(s2));
            },
            None => {},
        }
    }
}

/// A reader that takes one value, or none, from each line's words, and none from a line
/// without words, reads two outputs put together, the first empty or ending with a
/// newline, as the first output's values followed by the second's.
proof fn lemma_reader_concat<A>(a: Seq<char>, b: Seq<char>, f: spec_fn(Seq<Seq<char>>) -> Option<A>)
    requires
        a.len() == 0 || a.last() == '\n',
        f(Seq::<Seq<char>>::empty()) is None,
    ensures
        present(line_words(a + b).map_values(f)) == present(line_words(a).map_values(f)) + present(
            line_words(b).map_values(f),
        ),
{
    let e = Seq::<char>::empty();
    lemma_len_before_bound(e, '\n');
    assert(words(e) =~= Seq::<Seq<char>>::empty());
    if a.len() == 0 {
        assert(a + b =~= b);
        assert(line_words(a) == seq![words(e)]);
        assert(line_words(a).map_values(f) =~= seq![f(Seq::<Seq<char>>::empty())]);
        let m = line_words(a).map_values(f);
        assert(m.drop_last() =~= Seq::<Option<A>>::empty());
        assert(m.last() is None);
        assert(present(m.drop_last()).len() == 0);
        assert(present(m).len() == 0);
        assert(present(line_words(a).map_values(f)) + present(line_words(b).map_values(f))
            =~= present(line_words(b).map_values(f)));
    } else {
        lemma_line_words_concat(a, b);
        let la = line_words(a);
        let lb = line_words(b);
        assert(line_words(a + b).map_values(f) =~= la.drop_last().map_values(f) + lb.map_values(f));
        lemma_present_concat(la.drop_last().map_values(f), lb.map_values(f));
        lemma_line_words_last_empty(a);
        assert(la.map_values(f).drop_last() =~= la.drop_last().map_values(f));
        assert(la.map_values(f).last() == f(la.last()));
    }
}

proof fn lemma_line_words_last_empty(a: Seq<char>)
    requires
        a.len() > 0,
        a.last() == '\n',
    ensures
        line_words(a).len() > 0,
        line_words(a).last() == Seq::<Seq<char>>::empty(),
{
    let e = Seq::<char>::empty();
    lemma_len_before_bound(e, '\n');
    lemma_line_words_concat(a, e);
    assert(a + e =~= a);
    assert(words(e) =~= Seq::<Seq<char>>::empty());
    assert(line_words(e) == seq![words(e)]);
}

/// The interface that one line of `virsh domiflist` describes: the third column is the
/// network and the fifth the MAC address, which must look like one. Headers, rules and
/// short or malformed lines describe none.
pub open spec fn domiflist_entry(w: Seq<Seq<char>>) -> Option<InterfaceView> {
    if w.len() >= 5 && is_mac(w[4]) {
        Some(InterfaceView { network: w[2], mac: w[4] })
    } else {
        None
    }
}

/// The interfaces that a `virsh domiflist` table lists, in order.
pub open spec fn domiflist_interfaces(out: Seq<char>) -> Seq<InterfaceView> {
    present(line_words(out).map_values(|w: Seq<Seq<char>>| domiflist_entry(w)))
}

/// Reads the interface table of `virsh domiflist`, skipping headers and malformed lines.
pub fn parse_domiflist_interfaces(stdout: &str) -> (r: Vec<Interface>)
    ensures
        r@.map_values(|x: Interface| x@) == domiflist_interfaces(stdout@),
        forall|i: int| 0 <= i < r@.len() ==> is_mac(#[trigger] r@[i].mac@),
{
    let lines = split_lines_words(stdout);
    let ghost lw = lines.deep_view();
    let ghost entries = lw.map_values(|w: Seq<Seq<char>>| domiflist_entry(w));
    let mut out: Vec<Interface> = Vec::new();
    let n = lines.len();
    let mut i: usize = 0;
    assert(entries.take(0) =~= Seq::<Option<InterfaceView>>::empty());
    while i < n
        invariant
            lw == lines.deep_view(),
            lw == line_words(stdout@),
            entries == lw.map_values(|w: Seq<Seq<char>>| domiflist_entry(w)),
            n == lines@.len(),
            i <= n,
            out@.map_values(|x: Interface| x@) == present(entries.take(i as int)),
        decreases n - i,
    {
        let line = &lines[i];
        assert(line.deep_view() == lw[i as int]);
        let ghost before = out@.map_values(|x: Interface| x@);
        proof {
            lemma_present_take(entries, i as int);
        }
        if line.len() >= 5 && looks_like_mac(line[4].as_str()) {
            let it = Interface { network: line[2].clone(), mac: line[4].clone() };
            out.push(it);
            assert(out@.map_values(|x: Interface| x@) =~= before.push(it@));
        }
        i = i + 1;
    }
    assert(entries.take(n as int) =~= entries);
    proof {
        lemma_present_all(entries, |v: InterfaceView| is_mac(v.mac));
        assert forall|i: int| 0 <= i < out@.len() implies is_mac(#[trigger] out@[i].mac@) by {
            assert(out@.map_values(|x: Interface| x@)[i] == out@[i]@);
        }
    }
    out
}

/// Two `virsh domiflist` outputs put together, the first empty or ending with a newline,
/// list the interfaces of the first, then those of the second.
pub proof fn law_domiflist_concat(a: Seq<char>, b: Seq<char>)
    requires
        a.len() == 0 || a.last() == '\n',
    ensures
        domiflist_interfaces(a + b) == domiflist_interfaces(a) + domiflist_interfaces(b),
{
    lemma_reader_concat(a, b, |w: Seq<Seq<char>>| domiflist_entry(w));
}

/// The address text of one line of `virsh net-dhcp-leases`: the fifth column, up to
/// its `/`, of a line whose third column is `target_mac` and whose fourth is the
/// protocol `ipv4`, both without regard to ASCII case.
pub open spec fn lease_entry(w: Seq<Seq<char>>, target_mac: Seq<char>) -> Option<Seq<char>> {
    if w.len() >= 5 && eq_ignore_case(w[2], target_mac) && eq_ignore_case(w[3], "ipv4"@) {
        before_first(w[4], '/')
    } else {
        None
    }
}

/// The address texts that a `virsh net-dhcp-leases` table gives for `target_mac`, in order.
pub open spec fn lease_addresses(out: Seq<char>, target_mac: Seq<char>) -> Seq<Seq<char>> {
    present(line_words(out).map_values(|w: Seq<Seq<char>>| lease_entry(w, target_mac)))
}

/// Two `virsh net-dhcp-leases` outputs put together, the first empty or ending with a
/// newline, give the addresses of the first, then those of the second.
pub proof fn law_lease_concat(a: Seq<char>, b: Seq<char>, target_mac: Seq<char>)
    requires
        a.len() == 0 || a.last() == '\n',
    ensures
        lease_addresses(a + b, target_mac) == lease_addresses(a, target_mac) + lease_addresses(
            b,
            target_mac,
        ),
{
    lemma_reader_concat(a, b, |w: Seq<Seq<char>>| lease_entry(w, target_mac));
}

/// The leases of a MAC address are the same however its letters are cased.
pub proof fn law_lease_mac_case(out: Seq<char>, m1: Seq<char>, m2: Seq<char>)
    requires
        eq_ignore_case(m1, m2),
    ensures
        lease_addresses(out, m1) == lease_addresses(out, m2),
{
    let lw = line_words(out);
    let e1 = lw.map_values(|w: Seq<Seq<char>>| lease_entry(w, m1));
    let e2 = lw.map_values(|w: Seq<Seq<char>>| lease_entry(w, m2));
    assert forall|j: int| 0 <= j < lw.len() implies e1[j] == e2[j] by {
        let w = lw[j];
        if w.len() >= 5 {
            assert(eq_ignore_case(w[2], m1) == eq_ignore_case(w[2], m2)) by {
                if eq_ignore_case(w[2], m1) {
                    assert forall|i: int| 0 <= i < w[2].len() implies #[trigger] ascii_fold(w[2][i])
                        == ascii_fold(m2[i]) by {
                        assert(ascii_fold(m1[i]) == ascii_fold(m2[i]));
                    }
                }
                if eq_ignore_case(w[2], m2) {
                    assert forall|i: int| 0 <= i < w[2].len() implies #[trigger] ascii_fold(w[2][i])
                        == ascii_fold(m1[i]) by {
                        assert(ascii_fold(m1[i]) == ascii_fold(m2[i]));
                    }
                }
            }
        }
    }
    assert(e1 =~= e2);
}

/// After words none of which is the `ipv4` marker, the marker and a word `a` give the part of
/// `a` before its `/`, however long `a` is.
pub proof fn law_marker_then_address(p: Seq<Seq<char>>, a: Seq<char>)
    requires
        forall|i: int| 0 <= i < p.len() ==> !eq_ignore_case(#[trigger] p[i], "ipv4"@),
    ensures
        ipv4_address_after_marker(p + seq!["ipv4"@, a]) == before_first(a, '/'),
    decreases p.len(),
{
    let w = p + seq!["ipv4"@, a];
    if p.len() == 0 {
        assert(w =~= seq!["ipv4"@, a]);
        assert(eq_ignore_case("ipv4"@, "ipv4"@));
    } else {
        assert(w[0] == p[0]);
        let q = p.drop_first();
        assert(w.drop_first() =~= q + seq!["ipv4"@, a]);
        assert forall|i: int| 0 <= i < q.len() implies !eq_ignore_case(#[trigger] q[i], "ipv4"@) by {
            assert(q[i] == p[i + 1]);
        }
        law_marker_then_address(q, a);
    }
}

/// Words after the fifth change nothing of what a lease line gives; a line whose MAC and
/// protocol match gives the part of the fifth word before its `/`.
pub proof fn law_lease_line(w: Seq<Seq<char>>, extra: Seq<Seq<char>>, target_mac: Seq<char>)
    requires
        w.len() >= 5,
    ensures
        lease_entry(w + extra, target_mac) == lease_entry(w, target_mac),
        eq_ignore_case(w[2], target_mac) && eq_ignore_case(w[3], "ipv4"@) ==> lease_entry(
            w,
            target_mac,
        ) == before_first(w[4], '/'),
        !eq_ignore_case(w[2], target_mac) ==> lease_entry(w, target_mac) is None,
{
    let x = w + extra;
    assert(x[2] == w[2]);
    assert(x[3] == w[3]);
    assert(x[4] == w[4]);
}

/// A text that holds no `/`.
pub open spec fn no_slash(s: Seq<char>) -> bool {
    !s.contains('/')
}

proof fn lemma_before_first_no_sep(s: Seq<char>, sep: char)
    requires
        before_first(s, sep) is Some,
    ensures
        !before_first(s, sep)->0.contains(sep),
{
    lemma_len_before_bound(s, sep);
    let p = before_first(s, sep)->0;
    if p.contains(sep) {
        let k = choose|k: int| 0 <= k < p.len() && p[k] == sep;
        assert(p[k] == s[k]);
    }
}

/// Reads the lease table of `virsh net-dhcp-leases` and gives, in order, the address
/// text (the part before the prefix length) of each IPv4 lease of `target_mac`.
pub fn parse_dhcp_leases(stdout: &str, target_mac: &str) -> (r: Vec<String>)
    ensures
        r.deep_view() == lease_addresses(stdout@, target_mac@),
        forall|i: int| 0 <= i < r@.len() ==> no_slash(#[trigger] r@[i]@),
{
    let lines = split_lines_words(stdout);
    let ghost lw = lines.deep_view();
    let ghost entries = lw.map_values(|w: Seq<Seq<char>>| lease_entry(w, target_mac@));
    let mut out: Vec<String> = Vec::new();
    let n = lines.len();
    let mut i: usize = 0;
    assert(entries.take(0) =~= Seq::<Option<Seq<char>>>::empty());
    while i < n
        invariant
            lw == lines.deep_view(),
            lw == line_words(stdout@),
            entries == lw.map_values(|w: Seq<Seq<char>>| lease_entry(w, target_mac@)),
            n == lines@.len(),
            i <= n,
            out.deep_view() == present(entries.take(i as int)),
        decreases n - i,
    {
        let line = &lines[i];
        assert(line.deep_view() == lw[i as int]);
        let ghost before = out.deep_view();
        proof {
            lemma_present_take(entries, i as int);
        }
        let long = line.len() >= 5;
        if long {
            assert(line@[2]@ == lw[i as int][2]);
            assert(line@[3]@ == lw[i as int][3]);
            assert(line@[4]@ == lw[i as int][4]);
        }
        if long && eq_ignore_ascii_case(line[2].as_str(), target_mac)
            && eq_ignore_ascii_case(line[3].as_str(), "ipv4") {
            if let Some(raw) = split_once_first(line[4].as_str(), '/') {
                out.push(raw);
                assert(out.deep_view() =~= before.push(raw@));
            }
        }
        i = i + 1;
    }
    assert(entries.take(n as int) =~= entries);
    proof {
        assert forall|j: int| 0 <= j < entries.len() && (#[trigger] entries[j]) is Some implies no_slash(
            entries[j]->0,
        ) by {
            lemma_before_first_no_sep(lw[j][4], '/');
        }
        lemma_present_all(entries, |a: Seq<char>| no_slash(a));
        assert forall|i: int| 0 <= i < out@.len() implies no_slash(#[trigger] out@[i]@) by {
            assert(out.deep_view()[i] == out@[i]@);
        }
    }
    out
}

/// The address text of one line of `virsh domifaddr`: after the first word that is the
/// protocol `ipv4` (without regard to ASCII case), the next word up to its `/`. A line
/// whose marker has no next word, or whose next word has no `/`, gives none.
pub open spec fn ipv4_address_after_marker(w: Seq<Seq<char>>) -> Option<Seq<char>>
    decreases w.len(),
{
    if w.len() == 0 {
        None
    } else if eq_ignore_case(w[0], "ipv4"@) {
        if w.len() >= 2 {
            before_first(w[1], '/')
        } else {
            None
        }
    } else {
        ipv4_address_after_marker(w.drop_first())
    }
}

/// The address texts that a `virsh domifaddr` table gives, in order.
pub open spec fn interface_addresses(out: Seq<char>) -> Seq<Seq<char>> {
    present(line_words(out).map_values(|w: Seq<Seq<char>>| ipv4_address_after_marker(w)))
}

/// The address text of one line of `virsh domifaddr`.
fn line_address(line: &Vec<String>) -> (r: Option<String>)
    ensures
        r.is_some() == ipv4_address_after_marker(line.deep_view()).is_some(),
        r matches Some(a) ==> a@ == ipv4_address_after_marker(line.deep_view())->0,
{
    let ghost w = line.deep_view();
    let n = line.len();
    let mut k: usize = 0;
    assert(w.skip(0) =~= w);
    while k < n
        invariant
            w == line.deep_view(),
            n == w.len(),
            k <= n,
            ipv4_address_after_marker(w) == ipv4_address_after_marker(w.skip(k as int)),
        decreases n - k,
    {
        assert(line@[k as int]@ == w[k as int]);
        assert(w.skip(k as int)[0] == w[k as int]);
        if eq_ignore_ascii_case(line[k].as_str(), "ipv4") {
            if k + 1 < n {
                assert(line@[k + 1]@ == w[k + 1]);
                assert(w.skip(k as int)[1] == w[k + 1]);
                return split_once_first(line[k + 1].as_str(), '/');
            } else {
                return None;
            }
        }
        assert(w.skip(k as int).drop_first() =~= w.skip(k + 1));
        k = k + 1;
    }
    None
}

/// Reads the address table of `virsh domifaddr` and gives, in order, the address text
/// (the part before the prefix length) that follows the `ipv4` protocol marker of each line.
pub fn parse_interface_addresses(stdout: &str) -> (r: Vec<String>)
    ensures
        r.deep_view() == interface_addresses(stdout@),
        forall|i: int| 0 <= i < r@.len() ==> no_slash(#[trigger] r@[i]@),
{
    let lines = split_lines_words(stdout);
    let ghost lw = lines.deep_view();
    let ghost entries = lw.map_values(|w: Seq<Seq<char>>| ipv4_address_after_marker(w));
    let mut out: Vec<String> = Vec::new();
    let n = lines.len();
    let mut i: usize = 0;
    assert(entries.take(0) =~= Seq::<Option<Seq<char>>>::empty());
    while i < n
        invariant
            lw == lines.deep_view(),
            lw == line_words(stdout@),
            entries == lw.map_values(|w: Seq<Seq<char>>| ipv4_address_after_marker(w)),
            n == lines@.len(),
            i <= n,
            out.deep_view() == present(entries.take(i as int)),
        decreases n - i,
    {
        assert(lines@[i as int].deep_view() == lw[i as int]);
        let ghost before = out.deep_view();
        proof {
            lemma_present_take(entries, i as int);
        }
        if let Some(raw) = line_address(&lines[i]) {
            out.push(raw);
            assert(out.deep_view() =~= before.push(raw@));
        }
        i = i + 1;
    }
    assert(entries.take(n as int) =~= entries);
    proof {
        assert forall|j: int| 0 <= j < entries.len() && (#[trigger] entries[j]) is Some implies no_slash(
            entries[j]->0,
        ) by {
            lemma_marker_no_slash(lw[j]);
        }
        lemma_present_all(entries, |a: Seq<char>| no_slash(a));
        assert forall|i: int| 0 <= i < out@.len() implies no_slash(#[trigger] out@[i]@) by {
            assert(out.deep_view()[i] == out@[i]@);
        }
    }
    out
}

/// Two `virsh domifaddr` outputs put together, the first empty or ending with a newline,
/// give the addresses of the first, then those of the second.
pub proof fn law_interface_addresses_concat(a: Seq<char>, b: Seq<char>)
    requires
        a.len() == 0 || a.last() == '\n',
    ensures
        interface_addresses(a + b) == interface_addresses(a) + interface_addresses(b),
{
    lemma_reader_concat(a, b, |w: Seq<Seq<char>>| ipv4_address_after_marker(w));
}

proof fn lemma_marker_no_slash(w: Seq<Seq<char>>)
    requires
        ipv4_address_after_marker(w) is Some,
    ensures
        no_slash(ipv4_address_after_marker(w)->0),
    decreases w.len(),
{
    if eq_ignore_case(w[0], "ipv4"@) {
        lemma_before_first_no_sep(w[1], '/');
    } else {
        lemma_marker_no_slash(w.drop_first());
    }
}

} // verus!
