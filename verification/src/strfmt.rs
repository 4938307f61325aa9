//! Plain-text rendering: timestamps as `hh:mm:ss.mmm` clock strings, and the
//! segment index document that the splitting tools emit.
use vstd::prelude::*;

verus! {

/// The decimal digits of `n`, most significant first.
pub open spec fn spec_dec_digits(n: int) -> Seq<char>
    decreases n,
{
    if n < 0 {
        Seq::empty()
    } else if n < 10 {
        seq![((48 + n) as u8) as char]
    } else {
        spec_dec_digits(n / 10).push(((48 + n % 10) as u8) as char)
    }
}

/// `n` rendered with at least two digits.
pub open spec fn spec_pad2(n: int) -> Seq<char> {
    if 0 <= n < 10 {
        seq!['0'] + spec_dec_digits(n)
    } else {
        spec_dec_digits(n)
    }
}

/// `n` rendered with at least three digits.
pub open spec fn spec_pad3(n: int) -> Seq<char> {
    if 0 <= n < 10 {
        seq!['0', '0'] + spec_dec_digits(n)
    } else if 10 <= n < 100 {
        seq!['0'] + spec_dec_digits(n)
    } else {
        spec_dec_digits(n)
    }
}

/// A millisecond count as a clock string: hours only when nonzero, then
/// minutes, seconds, and milliseconds.
pub open spec fn spec_format_seconds_ms(ms: int) -> Seq<char> {
    let mm = ms % 1000;
    let s = (ms / 1000) % 60;
    let m = (ms / 60000) % 60;
    let h = ms / 3600000;
    if h != 0 {
        spec_pad2(h) + seq![':'] + spec_pad2(m) + seq![':'] + spec_pad2(s) + seq!['.'] + spec_pad3(
            mm,
        )
    } else {
        spec_pad2(m) + seq![':'] + spec_pad2(s) + seq!['.'] + spec_pad3(mm)
    }
}

fn digit_str(d: u64) -> (r: &'static str)
    requires
        d < 10,
    ensures
        r@ == seq![((48 + d) as u8) as char],
{
    if d == 0 {
        proof {
            reveal_strlit("0");
        }
        "0"
    } else if d == 1 {
        proof {
            reveal_strlit("1");
        }
        "1"
    } else if d == 2 {
        proof {
            reveal_strlit("2");
        }
        "2"
    } else if d == 3 {
        proof {
            reveal_strlit("3");
        }
        "3"
    } else if d == 4 {
        proof {
            reveal_strlit("4");
        }
        "4"
    } else if d == 5 {
        proof {
            reveal_strlit("5");
        }
        "5"
    } else if d == 6 {
        proof {
            reveal_strlit("6");
        }
        "6"
    } else if d == 7 {
        proof {
            reveal_strlit("7");
        }
        "7"
    } else if d == 8 {
        proof {
            reveal_strlit("8");
        }
        "8"
    } else {
        proof {
            reveal_strlit("9");
        }
        "9"
    }
}

/// Append the decimal rendering of `n`.
fn push_dec(s: &mut String, n: u64)
    ensures
        final(s)@ == old(s)@ + spec_dec_digits(n as int),
    decreases n,
{
    if n < 10 {
        s.append(digit_str(n));
        proof {
            assert(final(s)@ =~= old(s)@ + spec_dec_digits(n as int));
        }
    } else {
        push_dec(s, n / 10);
        s.append(digit_str(n % 10));
        proof {
            assert(final(s)@ =~= old(s)@ + spec_dec_digits(n as int));
        }
    }
}

fn push_pad2(s: &mut String, n: u64)
    ensures
        final(s)@ == old(s)@ + spec_pad2(n as int),
{
    if n < 10 {
        proof {
            reveal_strlit("0");
        }
        s.append("0");
    }
    push_dec(s, n);
    proof {
        assert(final(s)@ =~= old(s)@ + spec_pad2(n as int));
    }
}

fn push_pad3(s: &mut String, n: u64)
    ensures
        final(s)@ == old(s)@ + spec_pad3(n as int),
{
    if n < 10 {
        proof {
            reveal_strlit("00");
            assert("00"@ =~= seq!['0', '0']);
        }
        s.append("00");
    } else if n < 100 {
        proof {
            reveal_strlit("0");
        }
        s.append("0");
    }
    push_dec(s, n);
    proof {
        assert(final(s)@ =~= old(s)@ + spec_pad3(n as int));
    }
}

/// Render a millisecond count as a clock string: hours only when the count
/// reaches an hour, then minutes, seconds, and milliseconds, each padded.
pub fn format_seconds_ms(ms: u64) -> (r: String)
    ensures
        r@ == spec_format_seconds_ms(ms as int),
{
    let mm = ms % 1000;
    let s0 = (ms / 1000) % 60;
    let m = (ms / 60000) % 60;
    let h = ms / 3600000;
    let mut out = String::new();
    proof {
        reveal_strlit(":");
        reveal_strlit(".");
    }
    if h != 0 {
        push_pad2(&mut out, h);
        out.append(":");
    }
    push_pad2(&mut out, m);
    out.append(":");
    push_pad2(&mut out, s0);
    out.append(".");
    push_pad3(&mut out, mm);
    proof {
        assert(out@ =~= spec_format_seconds_ms(ms as int));
    }
    out
}

/// One segment line of the index document.
pub open spec fn spec_config_entry(t: u64, size: u64, prefix: Seq<char>, path: Seq<char>) -> Seq<
    char,
> {
    "<durl><length>"@ + spec_dec_digits(t as int) + "</length><size>"@ + spec_dec_digits(
        size as int,
    ) + "</size><url>"@ + prefix + path + "</url></durl>"@
}

/// The whole segment index document: the total length, then one entry per
/// segment file paired with its duration and size.
pub open spec fn spec_flv_config(
    info: Seq<(u64, u64)>,
    flvs: Seq<Seq<char>>,
    i: int,
    timelength: u64,
    prefix: Seq<char>,
) -> Seq<char>
    decreases flvs.len() - i,
{
    if i < 0 || i >= flvs.len() || i >= info.len() {
        Seq::empty()
    } else {
        spec_config_entry(info[i].0, info[i].1, prefix, flvs[i]) + spec_flv_config(
            info,
            flvs,
            i + 1,
            timelength,
            prefix,
        )
    }
}

/// Render the segment index document for a split recording: the total
/// length in milliseconds, then one entry per segment with its duration,
/// byte size, and address.
pub fn write_flv_config(
    info_vec: &Vec<(u64, u64)>,
    flvs: &Vec<String>,
    timelength: u64,
    url_prefix: &String,
) -> (r: String)
    ensures
        r@ == "<video><timelength>"@ + spec_dec_digits(timelength as int) + "</timelength>"@
            + spec_flv_config(
            info_vec@,
            Seq::new(flvs@.len(), |k: int| flvs@[k]@),
            0,
            timelength,
            url_prefix@,
        ) + "</video>"@,
{
    let ghost views = Seq::new(flvs@.len(), |k: int| flvs@[k]@);
    let mut out = String::new();
    proof {
        reveal_strlit("<video><timelength>");
        reveal_strlit("</timelength>");
        reveal_strlit("</video>");
        reveal_strlit("<durl><length>");
        reveal_strlit("</length><size>");
        reveal_strlit("</size><url>");
        reveal_strlit("</url></durl>");
    }
    out.append("<video><timelength>");
    push_dec(&mut out, timelength);
    out.append("</timelength>");
    let n = if flvs.len() < info_vec.len() {
        flvs.len()
    } else {
        info_vec.len()
    };
    let ghost head = "<video><timelength>"@ + spec_dec_digits(timelength as int)
        + "</timelength>"@;
    proof {
        assert(out@ =~= head);
    }
    let mut i: usize = 0;
    while i < n
        invariant
            i <= n,
            n <= flvs@.len(),
            n <= info_vec@.len(),
            n == (if flvs@.len() < info_vec@.len() {
                flvs@.len()
            } else {
                info_vec@.len()
            }),
            views == Seq::new(flvs@.len(), |k: int| flvs@[k]@),
            out@ + spec_flv_config(info_vec@, views, i as int, timelength, url_prefix@) == head
                + spec_flv_config(info_vec@, views, 0, timelength, url_prefix@),
        decreases n - i,
    {
        proof {
            reveal_strlit("<durl><length>");
            reveal_strlit("</length><size>");
            reveal_strlit("</size><url>");
            reveal_strlit("</url></durl>");
        }
        let ghost before = out@;
        out.append("<durl><length>");
        push_dec(&mut out, info_vec[i].0);
        out.append("</length><size>");
        push_dec(&mut out, info_vec[i].1);
        out.append("</size><url>");
        out.append(url_prefix.as_str());
        out.append(flvs[i].as_str());
        out.append("</url></durl>");
        proof {
            assert(out@ =~= before + spec_config_entry(
                info_vec@[i as int].0,
                info_vec@[i as int].1,
                url_prefix@,
                views[i as int],
            ));
            assert(out@ + spec_flv_config(info_vec@, views, i + 1, timelength, url_prefix@)
                =~= before + spec_flv_config(info_vec@, views, i as int, timelength, url_prefix@));
        }
        i = i + 1;
    }
    out.append("</video>");
    proof {
        assert(spec_flv_config(info_vec@, views, n as int, timelength, url_prefix@) =~= Seq::<
            char,
        >::empty());
        assert(out@ =~= head + spec_flv_config(info_vec@, views, 0, timelength, url_prefix@)
            + "</video>"@);
    }
    out
}

} // verus!
