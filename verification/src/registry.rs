//! The client registry: one line per registered client, each line the client's
//! address followed by CR LF.

use vstd::prelude::*;
use vstd::string::StringExecFns;
use vstd::std_specs::iter::IteratorSpec;
use crate::connection::push_char;

verus! {

broadcast use vstd::string::group_string_axioms;

/// The registry line for one client address.
pub open spec fn record_line(addr: Seq<char>) -> Seq<char> {
    addr.push('\r').push('\n')
}

/// The registry text after recording the addresses in order.
pub open spec fn registry_text(addrs: Seq<Seq<char>>) -> Seq<char>
    decreases addrs.len(),
{
    if addrs.len() == 0 {
        Seq::empty()
    } else {
        registry_text(addrs.drop_last()) + record_line(addrs.last())
    }
}

/// A line without its one trailing carriage return, if it has one.
pub open spec fn strip_cr(line: Seq<char>) -> Seq<char> {
    if line.len() > 0 && line.last() == '\r' {
        line.drop_last()
    } else {
        line
    }
}

/// Reading a text left to right: the lines completed so far (each ended by a
/// line feed, its carriage return dropped) and the line begun since.
pub open spec fn scan_lines(text: Seq<char>) -> (Seq<Seq<char>>, Seq<char>)
    decreases text.len(),
{
    if text.len() == 0 {
        (Seq::empty(), Seq::empty())
    } else {
        let (done, cur) = scan_lines(text.drop_last());
        if text.last() == '\n' {
            (done.push(strip_cr(cur)), Seq::empty())
        } else {
            (done, cur.push(text.last()))
        }
    }
}

/// The lines of a text: every line ended by a line feed, with the line feed and
/// one carriage return before it removed, then the unterminated rest if it is
/// not empty.
pub open spec fn text_lines(text: Seq<char>) -> Seq<Seq<char>> {
    let (done, cur) = scan_lines(text);
    if cur.len() > 0 {
        done.push(cur)
    } else {
        done
    }
}

/// The line that records one client in the registry: its address then CR LF.
pub fn client_record_line(addr: &str) -> (r: String)
    ensures
        r@ == record_line(addr@),
{
    let mut line = String::from_str(addr);
    push_char(&mut line, '\r');
    push_char(&mut line, '\n');
    line
}

/// The views of a list of strings.
pub open spec fn views(v: Seq<String>) -> Seq<Seq<char>> {
    v.map_values(|s: String| s@)
}

/// The registered clients read back from the registry text, one per line.
pub fn client_lines(content: &str) -> (r: Vec<String>)
    ensures
        views(r@) == text_lines(content@),
{
    let ghost chars = content@;
    let mut lines: Vec<String> = Vec::new();
    let mut cur = String::new();
    let mut pending_cr = false;
    let mut it = content.chars();
    let ghost mut i: int = 0;
    loop
        invariant
            chars == content@,
            it.remaining() == chars.skip(i),
            0 <= i <= chars.len(),
            !pending_cr ==> (cur@.len() == 0 || cur@.last() != '\r'),
            scan_lines(chars.take(i)) == (views(lines@), if pending_cr {
                cur@.push('\r')
            } else {
                cur@
            }),
        ensures
            scan_lines(chars) == (views(lines@), if pending_cr {
                cur@.push('\r')
            } else {
                cur@
            }),
        decreases chars.len() - i,
    {
        match it.next() {
            None => {
                assert(chars.take(i) =~= chars);
                break;
            },
            Some(c) => {
                proof {
                    assert(chars.take(i + 1).drop_last() =~= chars.take(i));
                    assert(chars.skip(i).drop_first() =~= chars.skip(i + 1));
                }
                let ghost old_lines = lines@;
                let ghost old_cur = cur@;
                let ghost old_pending = pending_cr;
                if c == '\n' {
                    proof {
                        if old_pending {
                            assert(old_cur.push('\r').drop_last() =~= old_cur);
                        }
                    }
                    let line = cur;
                    cur = String::new();
                    proof {
                        assert(views(old_lines.push(line)) =~= views(old_lines).push(line@));
                    }
                    lines.push(line);
                    pending_cr = false;
                } else {
                    if pending_cr {
                        push_char(&mut cur, '\r');
                    }
                    if c == '\r' {
                        pending_cr = true;
                    } else {
                        push_char(&mut cur, c);
                        pending_cr = false;
                    }
                }
                proof {
                    i = i + 1;
                }
            },
        }
    }
    if pending_cr {
        push_char(&mut cur, '\r');
    }
    if !cur.as_str().is_empty() {
        let ghost old_lines = lines@;
        proof {
            assert(views(old_lines.push(cur)) =~= views(old_lines).push(cur@));
        }
        lines.push(cur);
    }
    lines
}

proof fn lemma_scan_append_plain(t: Seq<char>, u: Seq<char>)
    requires
        forall|j: int| 0 <= j < u.len() ==> #[trigger] u[j] != '\n',
    ensures
        scan_lines(t + u) == (scan_lines(t).0, scan_lines(t).1 + u),
    decreases u.len(),
{
    if u.len() == 0 {
        assert(t + u =~= t);
        assert(scan_lines(t).1 + u =~= scan_lines(t).1);
    } else {
        let w = u.drop_last();
        assert((t + u).drop_last() =~= t + w);
        lemma_scan_append_plain(t, w);
        assert(u[u.len() - 1] != '\n');
        assert((scan_lines(t).1 + w).push(u.last()) =~= scan_lines(t).1 + u);
    }
}

proof fn lemma_scan_registry(addrs: Seq<Seq<char>>)
    requires
        forall|k: int, j: int|
            0 <= k < addrs.len() && 0 <= j < addrs[k].len() ==> #[trigger] addrs[k][j] != '\n',
    ensures
        scan_lines(registry_text(addrs)) == (addrs, Seq::<char>::empty()),
    decreases addrs.len(),
{
    if addrs.len() > 0 {
        let prev = addrs.drop_last();
        let a = addrs.last();
        lemma_scan_registry(prev);
        let t = registry_text(prev);
        let body = a.push('\r');
        assert forall|j: int| 0 <= j < body.len() implies #[trigger] body[j] != '\n' by {
            if j < a.len() {
                assert(addrs[addrs.len() - 1][j] != '\n');
            }
        }
        lemma_scan_append_plain(t, body);
        assert(Seq::<char>::empty() + body =~= body);
        assert(registry_text(addrs) =~= (t + body).push('\n'));
        assert((t + body).push('\n').drop_last() =~= t + body);
        assert(body.drop_last() =~= a);
        assert(prev.push(a) =~= addrs);
    }
}

/// Reading the registry gives back what was recorded: the lines of the text
/// made of the records of some addresses, none holding a line feed, are those
/// addresses, in order.
pub proof fn law_registry_round_trip(addrs: Seq<Seq<char>>)
    requires
        forall|k: int, j: int|
            0 <= k < addrs.len() && 0 <= j < addrs[k].len() ==> #[trigger] addrs[k][j] != '\n',
    ensures
        text_lines(registry_text(addrs)) == addrs,
{
    lemma_scan_registry(addrs);
}

/// A record line is the address unchanged, then a carriage return and a line
/// feed.
pub proof fn law_record_line_shape(addr: Seq<char>)
    ensures
        record_line(addr).len() == addr.len() + 2,
        record_line(addr).subrange(0, addr.len() as int) == addr,
        record_line(addr)[addr.len() as int] == '\r',
        record_line(addr)[addr.len() as int + 1] == '\n',
{
    assert(record_line(addr).subrange(0, addr.len() as int) =~= addr);
}
} // verus!
