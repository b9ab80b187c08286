use vstd::prelude::*;

use crate::address::IpAddress;
use crate::identity::ClientInfo;

verus! {

/// A labelled line for an optional header, or nothing where it is absent.
pub open spec fn optional_line(label: Seq<char>, value: Option<String>) -> Seq<char> {
    match value {
        Some(v) => label + v@ + "\n"@,
        None => Seq::empty(),
    }
}

/// One line per address of the proxy chain: the first under the label
/// `Forwarded-For: `, the others under as many spaces.
pub open spec fn forwarded_lines(s: Seq<IpAddress>) -> Seq<char>
    decreases s.len(),
{
    if s.len() == 0 {
        Seq::empty()
    } else {
        let label = if s.len() == 1 {
            "Forwarded-For: "@
        } else {
            "               "@
        };
        forwarded_lines(s.drop_last()) + label + s.last().text() + "\n"@
    }
}

/// The text form of what the service tells a client: one labelled line per
/// field that is present.
pub open spec fn info_text(info: ClientInfo) -> Seq<char> {
    optional_line("Host: "@, info.host) + "IP: "@ + info.client_ip.text() + "\n"@
        + forwarded_lines(info.forwarded_for@) + optional_line("Referer: "@, info.referer)
        + optional_line("User-Agent: "@, info.user_agent)
}

fn push_optional_line(out: &mut String, label: &str, value: &Option<String>)
    ensures
        final(out)@ == old(out)@ + optional_line(label@, *value),
{
    match value {
        Some(v) => {
            out.append(label);
            out.append(v.as_str());
            out.append("\n");
            proof {
                assert(final(out)@ =~= old(out)@ + optional_line(label@, *value));
            }
        },
        None => {
            proof {
                assert(final(out)@ =~= old(out)@ + optional_line(label@, *value));
            }
        },
    }
}

/// Renders what the service tells a client as text.
pub fn root(client_info: &ClientInfo) -> (r: String)
    ensures
        r@ == info_text(*client_info),
{
    let mut out = String::new();
    push_optional_line(&mut out, "Host: ", &client_info.host);
    out.append("IP: ");
    client_info.client_ip.push_text(&mut out);
    out.append("\n");
    let ghost head = out@;
    let fwd = &client_info.forwarded_for;
    let mut i: usize = 0;
    proof {
        assert(fwd@.subrange(0, 0) =~= Seq::<IpAddress>::empty());
        assert(out@ =~= head + forwarded_lines(fwd@.subrange(0, 0)));
    }
    while i < fwd.len()
        invariant
            i <= fwd@.len(),
            out@ == head + forwarded_lines(fwd@.subrange(0, i as int)),
        decreases fwd@.len() - i,
    {
        if i == 0 {
            out.append("Forwarded-For: ");
        } else {
            out.append("               ");
        }
        fwd[i].push_text(&mut out);
        out.append("\n");
        proof {
            let next = fwd@.subrange(0, i + 1);
            assert(next.drop_last() =~= fwd@.subrange(0, i as int));
            assert(next.last() == fwd@[i as int]);
            assert(out@ =~= head + forwarded_lines(next));
        }
        i = i + 1;
    }
    proof {
        assert(fwd@.subrange(0, fwd@.len() as int) =~= fwd@);
    }
    push_optional_line(&mut out, "Referer: ", &client_info.referer);
    push_optional_line(&mut out, "User-Agent: ", &client_info.user_agent);
    proof {
        assert(out@ =~= info_text(*client_info));
    }
    out
}

} // verus!
