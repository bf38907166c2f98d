//! The scan of the local network for a hub.
use crate::text;
use vstd::prelude::*;
use vstd::string::*;

verus! {

/// The texts of strings, in their order.
pub open spec fn texts(strings: Seq<String>) -> Seq<Seq<char>> {
    Seq::new(strings.len(), |i: int| strings[i]@)
}

/// An IPv4 address that a scan starts from: one that is not a loopback address.
pub open spec fn usable_address(address: Option<[u8; 4]>) -> Option<[u8; 4]> {
    match address {
        Some(octets) => if octets@[0] == 127 {
            None
        } else {
            Some(octets)
        },
        None => None,
    }
}

/// The address that a scan starts from, given the IPv4 address of the machine's own end of a
/// connection to the outside, if it has one: that address, unless it is a loopback address.
pub fn local_ipv4(address: Option<[u8; 4]>) -> (r: Option<[u8; 4]>)
    ensures
        r == usable_address(address),
{
    match address {
        Some(octets) => if octets[0] == 127 {
            None
        } else {
            Some(octets)
        },
        None => None,
    }
}

/// The text of an IPv4 address.
pub open spec fn address_text(a: u8, b: u8, c: u8, d: u8) -> Seq<char> {
    text::decimal_text(a as nat) + "."@ + text::decimal_text(b as nat) + "."@ + text::decimal_text(
        c as nat,
    ) + "."@ + text::decimal_text(d as nat)
}

fn write_address(a: u8, b: u8, c: u8, d: u8) -> (r: String)
    ensures
        r@ == address_text(a, b, c, d),
{
    let mut address = text::decimal(a as u64);
    address.append(".");
    address.append(text::decimal(b as u64).as_str());
    address.append(".");
    address.append(text::decimal(c as u64).as_str());
    address.append(".");
    address.append(text::decimal(d as u64).as_str());
    address
}

/// `hosts`, followed by those of `more` that do not stand before them.
pub open spec fn merged(hosts: Seq<Seq<char>>, more: Seq<Seq<char>>) -> Seq<Seq<char>>
    decreases more.len(),
{
    if more.len() == 0 {
        hosts
    } else {
        let before = merged(hosts, more.drop_last());
        if before.contains(more.last()) {
            before
        } else {
            before.push(more.last())
        }
    }
}

/// Whether a host stands in a list.
fn contains(hosts: &Vec<String>, host: &str) -> (r: bool)
    ensures
        r == texts(hosts@).contains(host@),
{
    let mut i: usize = 0;
    while i < hosts.len()
        invariant
            i <= hosts.len(),
            forall|j: int| 0 <= j < i ==> hosts@[j]@ != host@,
        decreases hosts.len() - i,
    {
        if text::same_text(hosts[i].as_str(), host) {
            assert(texts(hosts@)[i as int] == host@);
            return true;
        }
        i += 1;
    }
    assert(!texts(hosts@).contains(host@));
    false
}

/// Adds a host to a list, unless it stands there.
fn add_host(hosts: &mut Vec<String>, host: String)
    ensures
        texts(final(hosts)@) == if texts(old(hosts)@).contains(host@) {
            texts(old(hosts)@)
        } else {
            texts(old(hosts)@).push(host@)
        },
{
    if !contains(hosts, host.as_str()) {
        let ghost before = texts(hosts@);
        hosts.push(host);
        assert(texts(hosts@) =~= before.push(host@));
    }
}

/// One list, followed by those hosts of another that do not stand before them.
pub(crate) fn merge(hosts: &Vec<String>, more: &Vec<String>) -> (r: Vec<String>)
    ensures
        texts(r@) == merged(texts(hosts@), texts(more@)),
{
    let mut all = copy_batch(hosts, 0, hosts.len());
    assert(texts(all@) =~= texts(hosts@));
    let mut i: usize = 0;
    assert(texts(more@).take(0) =~= Seq::empty());
    while i < more.len()
        invariant
            i <= more.len(),
            texts(all@) == merged(texts(hosts@), texts(more@).take(i as int)),
        decreases more.len() - i,
    {
        let ghost taken = texts(more@).take(i + 1);
        assert(taken.drop_last() =~= texts(more@).take(i as int));
        add_host(&mut all, more[i].clone());
        i += 1;
    }
    assert(texts(more@).take(i as int) =~= texts(more@));
    all
}

/// The addresses from 1 to 254 of the segment of an address.
pub open spec fn segment(octets: [u8; 4]) -> Seq<Seq<char>> {
    Seq::new(
        254,
        |i: int| address_text(octets@[0], octets@[1], octets@[2], (i + 1) as u8),
    )
}

/// The hosts where a hub is looked for: this machine, and then the segment of its address.
pub open spec fn segment_hosts(local: Option<[u8; 4]>) -> Seq<Seq<char>> {
    match local {
        Some(octets) => merged(seq!["127.0.0.1"@], segment(octets)),
        None => seq!["127.0.0.1"@],
    }
}

/// The hosts where a hub is looked for, given the address that the scan starts from.
pub fn current_segment_hosts(local: Option<[u8; 4]>) -> (r: Vec<String>)
    ensures
        texts(r@) == segment_hosts(local),
{
    let mut hosts: Vec<String> = Vec::new();
    hosts.push("127.0.0.1".to_owned());
    assert(texts(hosts@) =~= seq!["127.0.0.1"@]);
    if let Some(octets) = local {
        let mut it: u8 = 1;
        assert(segment(octets).take(0) =~= Seq::empty());
        while it < 255
            invariant
                1 <= it <= 255,
                texts(hosts@) == merged(seq!["127.0.0.1"@], segment(octets).take(it - 1)),
            decreases 255 - it,
        {
            let ghost more = segment(octets).take(it as int);
            assert(more.drop_last() =~= segment(octets).take(it - 1));
            add_host(&mut hosts, write_address(octets[0], octets[1], octets[2], it));
            it += 1;
        }
        assert(segment(octets).take(254) =~= segment(octets));
    }
    hosts
}

/// The ports at which a device of the network is likely to answer.
pub fn device_probe_ports() -> (r: [u16; 2])
    ensures
        r@ == seq![80u16, 443u16],
{
    [80, 443]
}

/// The host of a device, once one of its ports has answered.
pub fn probe_device(host: &str, answers: &Vec<bool>) -> (r: Option<String>)
    ensures
        r is Some == answers@.contains(true),
        r matches Some(found) ==> found@ == host@,
{
    let mut i: usize = 0;
    while i < answers.len()
        invariant
            i <= answers.len(),
            forall|j: int| 0 <= j < i ==> !answers@[j],
        decreases answers.len() - i,
    {
        if answers[i] {
            assert(answers@[i as int]);
            return Some(host.to_owned());
        }
        i += 1;
    }
    None
}

/// At most `size` of the hosts, from the one at `from` on.
pub open spec fn batch(hosts: Seq<Seq<char>>, from: int, size: int) -> Seq<Seq<char>> {
    hosts.subrange(
        from,
        if from + size <= hosts.len() {
            from + size
        } else {
            hosts.len() as int
        },
    )
}

/// At most `size` of the hosts, from the one at `from` on.
pub(crate) fn copy_batch(hosts: &Vec<String>, from: usize, size: usize) -> (r: Vec<String>)
    requires
        from <= hosts.len(),
    ensures
        texts(r@) == batch(texts(hosts@), from as int, size as int),
        r.len() == if from + size <= hosts.len() {
            size as int
        } else {
            hosts.len() - from
        },
{
    let end: usize = if size <= hosts.len() - from {
        from + size
    } else {
        hosts.len()
    };
    let mut copies: Vec<String> = Vec::new();
    let mut i: usize = from;
    while i < end
        invariant
            from <= i <= end <= hosts.len(),
            texts(copies@) == texts(hosts@).subrange(from as int, i as int),
        decreases end - i,
    {
        let ghost before = texts(copies@);
        copies.push(hosts[i].clone());
        assert(texts(copies@) =~= before.push(hosts@[i as int]@));
        assert(texts(hosts@).subrange(from as int, i + 1) =~= before.push(hosts@[i as int]@));
        i += 1;
    }
    assert(copies@.len() == texts(copies@).len());
    copies
}

/// The parts of a list, with a separator between them.
pub open spec fn joined(parts: Seq<Seq<char>>, separator: Seq<char>) -> Seq<char>
    decreases parts.len(),
{
    if parts.len() == 0 {
        Seq::empty()
    } else if parts.len() == 1 {
        parts[0]
    } else {
        joined(parts.drop_last(), separator) + separator + parts.last()
    }
}

fn join(parts: &Vec<String>, separator: &str) -> (r: String)
    ensures
        r@ == joined(texts(parts@), separator@),
{
    if parts.len() == 0 {
        let empty = "".to_owned();
        proof {
            reveal_strlit("");
        }
        assert(empty@ =~= joined(texts(parts@), separator@));
        return empty;
    }
    let mut line = parts[0].clone();
    let mut i: usize = 1;
    assert(texts(parts@).take(1) =~= seq![parts@[0]@]);
    while i < parts.len()
        invariant
            1 <= i <= parts.len(),
            line@ == joined(texts(parts@).take(i as int), separator@),
        decreases parts.len() - i,
    {
        line.append(separator);
        line.append(parts[i].as_str());
        assert(texts(parts@).take(i + 1).drop_last() =~= texts(parts@).take(i as int));
        i += 1;
    }
    assert(texts(parts@).take(i as int) =~= texts(parts@));
    line
}

/// A line of the log that names a list of addresses.
pub open spec fn log_line(label: Seq<char>, content: Seq<char>) -> Seq<char> {
    "dghub: "@ + label + ": "@ + content
}

/// The lines of the log for a list of addresses: up to 32 addresses on a line.
pub open spec fn log_lines(label: Seq<char>, ips: Seq<Seq<char>>) -> Seq<Seq<char>> {
    if ips.len() == 0 {
        seq![log_line(label, "none"@)]
    } else {
        Seq::new(
            ((ips.len() + 31) / 32) as nat,
            |i: int| log_line(label, joined(batch(ips, 32 * i, 32), ", "@)),
        )
    }
}

fn write_log_line(label: &str, content: &str) -> (r: String)
    ensures
        r@ == log_line(label@, content@),
{
    let mut line = "dghub: ".to_owned();
    line.append(label);
    line.append(": ");
    line.append(content);
    line
}

/// The lines of the log for a list of addresses.
pub fn log_ip_list(label: &str, ips: &Vec<String>) -> (r: Vec<String>)
    ensures
        texts(r@) == log_lines(label@, texts(ips@)),
{
    let mut lines: Vec<String> = Vec::new();
    if ips.len() == 0 {
        lines.push(write_log_line(label, "none"));
        assert(texts(lines@) =~= log_lines(label@, texts(ips@)));
        return lines;
    }
    let mut from: usize = 0;
    let ghost all = log_lines(label@, texts(ips@));
    while from < ips.len()
        invariant
            ips.len() > 0,
            all == log_lines(label@, texts(ips@)),
            from <= ips.len(),
            lines@.len() == (from + 31) / 32,
            from < ips.len() ==> from % 32 == 0,
            forall|i: int| 0 <= i < lines@.len() ==> lines@[i]@ == all[i],
        decreases ips.len() - from,
    {
        let chunk = copy_batch(ips, from, 32);
        let ghost done = lines@.len() as int;
        assert(32 * done == from);
        lines.push(write_log_line(label, join(&chunk, ", ").as_str()));
        assert(lines@[done]@ == all[done]);
        from += chunk.len();
    }
    assert(texts(lines@) =~= all);
    lines
}

/// Merging keeps the first list at the front, in its order.
pub proof fn merging_keeps_the_first_list(hosts: Seq<Seq<char>>, more: Seq<Seq<char>>)
    ensures
        hosts.is_prefix_of(merged(hosts, more)),
    decreases more.len(),
{
    if more.len() > 0 {
        merging_keeps_the_first_list(hosts, more.drop_last());
    }
}

/// Merging keeps the hosts of both lists, and adds no other.
pub proof fn merging_keeps_both_lists(
    hosts: Seq<Seq<char>>,
    more: Seq<Seq<char>>,
    host: Seq<char>,
)
    ensures
        merged(hosts, more).contains(host) <==> hosts.contains(host) || more.contains(host),
    decreases more.len(),
{
    if more.len() > 0 {
        let less = more.drop_last();
        merging_keeps_both_lists(hosts, less, host);
        let before = merged(hosts, less);
        assert(more =~= less.push(more.last()));
        assert(more[more.len() - 1] == more.last());
        assert(more.contains(host) <==> less.contains(host) || host == more.last()) by {
            if more.contains(host) {
                let i = choose|i: int| 0 <= i < more.len() && more[i] == host;
                assert(i < less.len() ==> less[i] == host);
            }
            if less.contains(host) {
                let i = choose|i: int| 0 <= i < less.len() && less[i] == host;
                assert(more[i] == host);
            }
        }
        if !before.contains(more.last()) {
            let after = before.push(more.last());
            if after.contains(host) {
                let i = choose|i: int| 0 <= i < after.len() && after[i] == host;
                assert(i < before.len() ==> before[i] == host);
            }
            if before.contains(host) {
                let i = choose|i: int| 0 <= i < before.len() && before[i] == host;
                assert(after[i] == host);
            }
            assert(after[before.len() as int] == more.last());
        }
    }
}

/// Merging names no host twice, if the first list does not.
pub proof fn merging_names_no_host_twice(hosts: Seq<Seq<char>>, more: Seq<Seq<char>>)
    requires
        hosts.no_duplicates(),
    ensures
        merged(hosts, more).no_duplicates(),
    decreases more.len(),
{
    if more.len() > 0 {
        merging_names_no_host_twice(hosts, more.drop_last());
        let before = merged(hosts, more.drop_last());
        if !before.contains(more.last()) {
            let after = before.push(more.last());
            assert forall|i: int, j: int|
                0 <= i < after.len() && 0 <= j < after.len() && i != j implies after[i]
                != after[j] by {
                if i < before.len() {
                    assert(before.contains(before[i]));
                }
                if j < before.len() {
                    assert(before.contains(before[j]));
                }
            }
        }
    }
}

proof fn merging_new_hosts(hosts: Seq<Seq<char>>, more: Seq<Seq<char>>)
    requires
        (hosts + more).no_duplicates(),
    ensures
        merged(hosts, more) == hosts + more,
    decreases more.len(),
{
    if more.len() == 0 {
        assert(hosts + more =~= hosts);
    } else {
        let less = more.drop_last();
        let all = hosts + more;
        assert(hosts + less =~= all.drop_last());
        merging_new_hosts(hosts, less);
        let before = hosts + less;
        if before.contains(more.last()) {
            let i = choose|i: int| 0 <= i < before.len() && before[i] == more.last();
            assert(all[i] == all[all.len() - 1]);
        }
        assert(before.push(more.last()) =~= all);
    }
}

proof fn first_part_is_unique(a: nat, x: Seq<char>, b: nat, y: Seq<char>)
    requires
        text::decimal_text(a) + "."@ + x == text::decimal_text(b) + "."@ + y,
    ensures
        a == b,
        x == y,
{
    reveal_strlit(".");
    let first = text::decimal_text(a);
    let second = text::decimal_text(b);
    text::decimal_text_has_digits(a);
    text::decimal_text_has_digits(b);
    let left = first + "."@ + x;
    let right = second + "."@ + y;
    assert(left[first.len() as int] == '.');
    assert(right[second.len() as int] == '.');
    if first.len() < second.len() {
        assert(right[first.len() as int] == second[first.len() as int]);
    } else if second.len() < first.len() {
        assert(left[second.len() as int] == first[second.len() as int]);
    }
    assert(first =~= left.take(first.len() as int));
    assert(second =~= right.take(second.len() as int));
    text::decimal_text_is_injective(a, b);
    assert(x =~= left.skip(first.len() as int + 1));
    assert(y =~= right.skip(second.len() as int + 1));
}

proof fn regrouped(p: Seq<char>, q: Seq<char>, r: Seq<char>, s: Seq<char>, dot: Seq<char>)
    ensures
        p + dot + q + dot + r + dot + s == p + dot + (q + dot + (r + dot + s)),
{
    assert(p + dot + q + dot + r + dot + s =~= p + dot + (q + dot + (r + dot + s)));
}

/// Different addresses have different texts.
pub proof fn address_text_is_injective(
    a: u8,
    b: u8,
    c: u8,
    d: u8,
    e: u8,
    f: u8,
    g: u8,
    h: u8,
)
    requires
        address_text(a, b, c, d) == address_text(e, f, g, h),
    ensures
        a == e && b == f && c == g && d == h,
{
    let dot = "."@;
    let last1 = text::decimal_text(d as nat);
    let last2 = text::decimal_text(h as nat);
    let third1 = text::decimal_text(c as nat) + dot + last1;
    let third2 = text::decimal_text(g as nat) + dot + last2;
    let second1 = text::decimal_text(b as nat) + dot + third1;
    let second2 = text::decimal_text(f as nat) + dot + third2;
    regrouped(
        text::decimal_text(a as nat),
        text::decimal_text(b as nat),
        text::decimal_text(c as nat),
        last1,
        dot,
    );
    regrouped(
        text::decimal_text(e as nat),
        text::decimal_text(f as nat),
        text::decimal_text(g as nat),
        last2,
        dot,
    );
    first_part_is_unique(a as nat, second1, e as nat, second2);
    first_part_is_unique(b as nat, third1, f as nat, third2);
    first_part_is_unique(c as nat, last1, g as nat, last2);
    text::decimal_text_is_injective(d as nat, h as nat);
}

proof fn loopback_text()
    ensures
        "127.0.0.1"@ == address_text(127, 0, 0, 1),
{
    reveal_strlit("127.0.0.1");
    reveal_strlit(".");
    reveal_with_fuel(text::decimal_text, 3);
    assert("127.0.0.1"@ =~= address_text(127, 0, 0, 1));
}

/// A scan from a usable address looks at this machine first and then at each of the 254
/// addresses of the segment, at none of them twice.
pub proof fn the_whole_segment_is_covered(address: Option<[u8; 4]>, octets: [u8; 4])
    requires
        usable_address(address) == Some(octets),
    ensures
        segment_hosts(usable_address(address)) == seq!["127.0.0.1"@] + segment(octets),
        segment_hosts(usable_address(address)).len() == 255,
        segment_hosts(usable_address(address)).no_duplicates(),
{
    let all = seq!["127.0.0.1"@] + segment(octets);
    loopback_text();
    assert forall|i: int, j: int| 0 <= i < all.len() && 0 <= j < all.len() && i != j implies all[i]
        != all[j] by {
        if all[i] == all[j] {
            let (a, b, c) = (octets@[0], octets@[1], octets@[2]);
            if i == 0 {
                address_text_is_injective(127, 0, 0, 1, a, b, c, j as u8);
            } else if j == 0 {
                address_text_is_injective(127, 0, 0, 1, a, b, c, i as u8);
            } else {
                address_text_is_injective(a, b, c, i as u8, a, b, c, j as u8);
            }
        }
    }
    merging_new_hosts(seq!["127.0.0.1"@], segment(octets));
}

/// Every address is usable but for those of the loopback network, and is used as it is.
pub proof fn only_loopback_addresses_are_refused(octets: [u8; 4])
    ensures
        octets@[0] != 127 ==> usable_address(Some(octets)) == Some(octets),
        octets@[0] == 127 ==> usable_address(Some(octets)) is None,
        usable_address(None) is None,
{
}

/// The text of an address: the four numbers in their order, with a dot between them.
pub proof fn an_address_is_written_number_by_number(a: u8, b: u8, c: u8, d: u8)
    ensures
        exists|p: Seq<char>, q: Seq<char>, r: Seq<char>, s: Seq<char>|
            #![trigger text::number_of(p), text::number_of(q), text::number_of(r), text::number_of(s)]
            {
                &&& text::number_of(p) == a && p == text::decimal_text(a as nat)
                &&& text::number_of(q) == b && q == text::decimal_text(b as nat)
                &&& text::number_of(r) == c && r == text::decimal_text(c as nat)
                &&& text::number_of(s) == d && s == text::decimal_text(d as nat)
                &&& address_text(a, b, c, d) == p + "."@ + q + "."@ + r + "."@ + s
            },
{
    text::a_decimal_text_stands_for_its_number(a as nat);
    text::a_decimal_text_stands_for_its_number(b as nat);
    text::a_decimal_text_stands_for_its_number(c as nat);
    text::a_decimal_text_stands_for_its_number(d as nat);
}

/// The hosts of a scan: this machine, and then every other address from 1 to 254 that agrees with
/// the local one in its first three numbers; only this machine without a local address.
pub proof fn the_hosts_of_a_scan(octets: [u8; 4], host: Seq<char>)
    ensures
        segment_hosts(None) == seq!["127.0.0.1"@],
        segment_hosts(Some(octets)).len() > 0,
        segment_hosts(Some(octets))[0] == "127.0.0.1"@,
        segment_hosts(Some(octets)).no_duplicates(),
        segment_hosts(Some(octets)).contains(host) <==> host == "127.0.0.1"@ || exists|d: u8|
            1 <= d <= 254 && host == #[trigger] address_text(
                octets@[0],
                octets@[1],
                octets@[2],
                d,
            ),
{
    let first = seq!["127.0.0.1"@];
    let more = segment(octets);
    merging_keeps_both_lists(first, more, host);
    merging_keeps_the_first_list(first, more);
    merging_names_no_host_twice(first, more);
    assert(first[0] == merged(first, more)[0]);
    assert(first.contains(host) <==> host == "127.0.0.1"@) by {
        assert(first[0] == "127.0.0.1"@);
    }
    if more.contains(host) {
        let i = choose|i: int| 0 <= i < more.len() && more[i] == host;
        assert(host == address_text(octets@[0], octets@[1], octets@[2], (i + 1) as u8));
    }
    if exists|d: u8|
        1 <= d <= 254 && host == #[trigger] address_text(octets@[0], octets@[1], octets@[2], d) {
        let d = choose|d: u8|
            1 <= d <= 254 && host == #[trigger] address_text(octets@[0], octets@[1], octets@[2], d);
        assert(more[d - 1] == host);
    }
}

/// A batch holds the hosts from its start on, as many as are asked for or are left.
pub proof fn a_batch_holds_the_next_hosts(hosts: Seq<Seq<char>>, from: int, size: int, k: int)
    requires
        0 <= from <= hosts.len(),
        0 <= size,
    ensures
        batch(hosts, from, size).len() == if size <= hosts.len() - from {
            size
        } else {
            hosts.len() - from
        },
        0 <= k < batch(hosts, from, size).len() ==> batch(hosts, from, size)[k] == hosts[from + k],
{
}

/// Joining puts the separator between any two parts, and nowhere else.
pub proof fn joining_separates_the_parts(
    parts: Seq<Seq<char>>,
    part: Seq<char>,
    separator: Seq<char>,
)
    ensures
        joined(Seq::empty(), separator) == Seq::<char>::empty(),
        joined(seq![part], separator) == part,
        parts.len() > 0 ==> joined(parts.push(part), separator) == joined(parts, separator)
            + separator + part,
{
    assert(parts.push(part).drop_last() =~= parts);
}

/// Every address of a list stands in the log: the one at `k` on the line at `k / 32`, where the
/// addresses of that line stand in their order; and there is no line more.
pub proof fn every_address_is_logged(label: Seq<char>, ips: Seq<Seq<char>>, k: int)
    ensures
        ips.len() == 0 ==> log_lines(label, ips) == seq!["dghub: "@ + label + ": "@ + "none"@],
        ips.len() > 0 ==> 32 * (log_lines(label, ips).len() - 1) < ips.len() <= 32 * log_lines(
            label,
            ips,
        ).len(),
        0 <= k < ips.len() ==> ({
            let start = k - k % 32;
            let end = if start + 32 <= ips.len() {
                start + 32
            } else {
                ips.len() as int
            };
            log_lines(label, ips)[k / 32] == "dghub: "@ + label + ": "@ + joined(
                ips.subrange(start, end),
                ", "@,
            )
        }),
{
    if 0 <= k < ips.len() {
        assert(32 * (k / 32) == k - k % 32);
    }
}

} // verus!
