//! Content of the container's hosts file: two fixed localhost lines, then
//! one line per requested entry.

use vstd::prelude::*;
use crate::network::{spec_ip_text, HostEntry};

verus! {

/// The fixed first two lines of every hosts file this supervisor writes.
pub open spec fn spec_hosts_prefix() -> Seq<char> {
    "::1 localhost\n"@ + "127.0.0.1 localhost\n"@
}

/// One hosts line: the address, a space, the name, a newline.
pub open spec fn spec_host_line(ip: Seq<char>, hostname: Seq<char>) -> Seq<char> {
    ip + " "@ + hostname + "\n"@
}

/// The lines for the requested entries, in order.
pub open spec fn spec_host_lines(entries: Seq<HostEntry>) -> Seq<char>
    decreases entries.len(),
{
    if entries.len() == 0 {
        Seq::empty()
    } else {
        spec_host_line(spec_ip_text(entries[0].ip_addr), entries[0].hostname@)
            + spec_host_lines(entries.drop_first())
    }
}

/// Appending one entry appends its line.
proof fn lemma_host_lines_push(entries: Seq<HostEntry>, e: HostEntry)
    ensures
        spec_host_lines(entries.push(e)) == spec_host_lines(entries) + spec_host_line(
            spec_ip_text(e.ip_addr),
            e.hostname@,
        ),
    decreases entries.len(),
{
    if entries.len() == 0 {
        assert(entries.push(e)[0] == e);
        assert(entries.push(e).drop_first() =~= Seq::<HostEntry>::empty());
        assert(spec_host_lines(entries.push(e).drop_first()) =~= Seq::<char>::empty());
        assert(spec_host_lines(entries.push(e)) == spec_host_line(
            spec_ip_text(e.ip_addr),
            e.hostname@,
        ) + spec_host_lines(entries.push(e).drop_first()));
        assert(spec_host_lines(entries.push(e)) =~= spec_host_lines(entries) + spec_host_line(
            spec_ip_text(e.ip_addr),
            e.hostname@,
        ));
    } else {
        lemma_host_lines_push(entries.drop_first(), e);
        assert(entries.push(e)[0] == entries[0]);
        assert(entries.push(e).drop_first() =~= entries.drop_first().push(e));
        assert(spec_host_lines(entries.push(e)) =~= spec_host_lines(entries) + spec_host_line(
            spec_ip_text(e.ip_addr),
            e.hostname@,
        ));
    }
}

/// Build the full hosts file content for the requested entries. The first
/// two lines are always the fixed localhost lines.
pub fn hosts_content(entries: &Vec<HostEntry>) -> (r: String)
    ensures
        r@ == spec_hosts_prefix() + spec_host_lines(entries@),
        r@.take(spec_hosts_prefix().len() as int) == spec_hosts_prefix(),
{
    proof {
        reveal_strlit("::1 localhost\n");
        reveal_strlit("127.0.0.1 localhost\n");
        reveal_strlit(" ");
        reveal_strlit("\n");
    }
    let mut r = String::from_str("::1 localhost\n");
    r.append("127.0.0.1 localhost\n");
    let n = entries.len();
    let mut i: usize = 0;
    while i < n
        invariant
            n == entries@.len(),
            i <= n,
            r@ == spec_hosts_prefix() + spec_host_lines(entries@.take(i as int)),
        decreases n - i,
    {
        proof {
            reveal_strlit(" ");
            reveal_strlit("\n");
        }
        let line_ip = entries[i].ip_addr.text();
        r.append(line_ip.as_str());
        r.append(" ");
        r.append(entries[i].hostname.as_str());
        r.append("\n");
        proof {
            lemma_host_lines_push(entries@.take(i as int), entries@[i as int]);
            assert(entries@.take(i as int).push(entries@[i as int]) =~= entries@.take(
                i as int + 1,
            ));
            assert(r@ =~= spec_hosts_prefix() + spec_host_lines(entries@.take(i as int + 1)));
        }
        i += 1;
    }
    proof {
        assert(entries@.take(n as int) =~= entries@);
        assert(r@.take(spec_hosts_prefix().len() as int) =~= spec_hosts_prefix());
    }
    r
}

} // verus!
