//! Templated snapshot-folder naming.
//!
//! A template is scanned left to right; at each `$` the longest recognized
//! token is substituted, and anything else is copied through unchanged.
//! Substituted text is not rescanned. Recognized tokens: `$date`, `$time`,
//! `$timestamp`, `$count`, `$top_folder`, `$filename`, `$name`.

use vstd::prelude::*;
use crate::bytes::{dec_digits, append_bytes, take_prefix, u64_to_dec};
use crate::clock::{Timestamp, date_bytes, time_bytes, compact_bytes, render_date, render_time,
    render_compact};

verus! {

/// `$top_folder`
pub open spec fn tok_top_folder() -> Seq<u8> {
    seq![36u8, 116u8, 111u8, 112u8, 95u8, 102u8, 111u8, 108u8, 100u8, 101u8, 114u8]
}

/// `$timestamp`
pub open spec fn tok_timestamp() -> Seq<u8> {
    seq![36u8, 116u8, 105u8, 109u8, 101u8, 115u8, 116u8, 97u8, 109u8, 112u8]
}

/// `$filename`
pub open spec fn tok_filename() -> Seq<u8> {
    seq![36u8, 102u8, 105u8, 108u8, 101u8, 110u8, 97u8, 109u8, 101u8]
}

/// `$count`
pub open spec fn tok_count() -> Seq<u8> {
    seq![36u8, 99u8, 111u8, 117u8, 110u8, 116u8]
}

/// `$date`
pub open spec fn tok_date() -> Seq<u8> {
    seq![36u8, 100u8, 97u8, 116u8, 101u8]
}

/// `$time`
pub open spec fn tok_time() -> Seq<u8> {
    seq![36u8, 116u8, 105u8, 109u8, 101u8]
}

/// `$name`
pub open spec fn tok_name() -> Seq<u8> {
    seq![36u8, 110u8, 97u8, 109u8, 101u8]
}

/// The context a template is rendered against.
pub struct FmtCtx {
    /// Top-level folder name relative to the watched root.
    pub top_folder: Seq<u8>,
    /// Source file's base name, extension included.
    pub filename: Seq<u8>,
    /// How many snapshot generations already exist; `$count` renders one more.
    pub count: nat,
    /// The wall-clock time the rendering is fixed to.
    pub ts: Timestamp,
}

/// `tok` is a prefix of `s`.
pub open spec fn match_at(s: Seq<u8>, tok: Seq<u8>) -> bool {
    tok.len() <= s.len() && s.take(tok.len() as int) == tok
}

/// Index just before which the base name is cut for `$name`: the position of
/// the last `.` in `f` at an index of one or more, or `-1` when there is
/// none. A leading dot alone (a hidden file) does not cut the name.
pub open spec fn stem_cut(f: Seq<u8>, i: int) -> int
    decreases i,
{
    if i <= 1 {
        -1
    } else if f[i - 1] == 46 {
        i - 1
    } else {
        stem_cut(f, i - 1)
    }
}

/// The base name without its extension.
pub open spec fn stem_of(f: Seq<u8>) -> Seq<u8> {
    let c = stem_cut(f, f.len() as int);
    if c >= 1 {
        f.take(c)
    } else {
        f
    }
}

/// What rendering a template means: at each position the longest recognized
/// token is substituted, other bytes are copied through, and substituted
/// text is not rescanned.
pub open spec fn format_spec(tmpl: Seq<u8>, ctx: FmtCtx) -> Seq<u8>
    decreases tmpl.len(),
{
    if tmpl.len() == 0 {
        Seq::<u8>::empty()
    } else if match_at(tmpl, tok_top_folder()) {
        ctx.top_folder + format_spec(tmpl.skip(11), ctx)
    } else if match_at(tmpl, tok_timestamp()) {
        compact_bytes(ctx.ts) + format_spec(tmpl.skip(10), ctx)
    } else if match_at(tmpl, tok_filename()) {
        ctx.filename + format_spec(tmpl.skip(9), ctx)
    } else if match_at(tmpl, tok_count()) {
        dec_digits(ctx.count + 1) + format_spec(tmpl.skip(6), ctx)
    } else if match_at(tmpl, tok_date()) {
        date_bytes(ctx.ts) + format_spec(tmpl.skip(5), ctx)
    } else if match_at(tmpl, tok_time()) {
        time_bytes(ctx.ts) + format_spec(tmpl.skip(5), ctx)
    } else if match_at(tmpl, tok_name()) {
        stem_of(ctx.filename) + format_spec(tmpl.skip(5), ctx)
    } else {
        seq![tmpl[0]] + format_spec(tmpl.skip(1), ctx)
    }
}

/// Some recognized token starts at position `i` of `tmpl`.
pub open spec fn token_at(tmpl: Seq<u8>, i: int) -> bool {
    ||| match_at(tmpl.skip(i), tok_top_folder())
    ||| match_at(tmpl.skip(i), tok_timestamp())
    ||| match_at(tmpl.skip(i), tok_filename())
    ||| match_at(tmpl.skip(i), tok_count())
    ||| match_at(tmpl.skip(i), tok_date())
    ||| match_at(tmpl.skip(i), tok_time())
    ||| match_at(tmpl.skip(i), tok_name())
}

/// The base name of `f` without its extension.
pub fn file_stem(f: &Vec<u8>) -> (r: Vec<u8>)
    ensures
        r@ == stem_of(f@),
{
    let mut i: usize = f.len();
    while i > 1
        invariant
            i <= f.len(),
            stem_cut(f@, f@.len() as int) == stem_cut(f@, i as int),
        decreases i,
    {
        if f[i - 1] == 46 {
            assert(stem_cut(f@, i as int) == i - 1);
            return take_prefix(f, i - 1);
        }
        i -= 1;
    }
    assert(stem_cut(f@, f@.len() as int) == -1);
    take_prefix(f, f.len())
}

/// `tok` occurs in `t` starting at position `i`.
fn starts_with_at(t: &Vec<u8>, i: usize, tok: &Vec<u8>) -> (r: bool)
    requires
        i <= t.len(),
    ensures
        r == match_at(t@.skip(i as int), tok@),
{
    if t.len() - i < tok.len() {
        return false;
    }
    let mut j: usize = 0;
    while j < tok.len()
        invariant
            j <= tok.len(),
            i <= t.len(),
            tok.len() <= t.len() - i,
            forall|k: int| 0 <= k < j ==> t@[i + k] == tok@[k],
        decreases tok.len() - j,
    {
        if t[i + j] != tok[j] {
            assert(t@.skip(i as int)[j as int] == t@[i + j]);
            assert(t@.skip(i as int).take(tok@.len() as int) != tok@);
            return false;
        }
        j += 1;
    }
    assert(t@.skip(i as int).take(tok@.len() as int) =~= tok@);
    true
}

/// Renders `fmt` against the given context: each recognized token is
/// substituted (longest token first at any position), all other bytes pass
/// through unchanged. Pure, and deterministic once `ts` is fixed.
pub fn variable_replacer(
    fmt: &Vec<u8>,
    top_folder: &Vec<u8>,
    filename: &Vec<u8>,
    count: usize,
    ts: &Timestamp,
) -> (r: Vec<u8>)
    requires
        count < usize::MAX,
    ensures
        r@ == format_spec(
            fmt@,
            FmtCtx { top_folder: top_folder@, filename: filename@, count: count as nat, ts: *ts },
        ),
{
    let ghost ctx = FmtCtx {
        top_folder: top_folder@,
        filename: filename@,
        count: count as nat,
        ts: *ts,
    };
    let tok_tf: Vec<u8> = vec![36u8, 116, 111, 112, 95, 102, 111, 108, 100, 101, 114];
    let tok_tsp: Vec<u8> = vec![36u8, 116, 105, 109, 101, 115, 116, 97, 109, 112];
    let tok_fnm: Vec<u8> = vec![36u8, 102, 105, 108, 101, 110, 97, 109, 101];
    let tok_cnt: Vec<u8> = vec![36u8, 99, 111, 117, 110, 116];
    let tok_dat: Vec<u8> = vec![36u8, 100, 97, 116, 101];
    let tok_tim: Vec<u8> = vec![36u8, 116, 105, 109, 101];
    let tok_nam: Vec<u8> = vec![36u8, 110, 97, 109, 101];
    assert(tok_tf@ =~= tok_top_folder());
    assert(tok_tsp@ =~= tok_timestamp());
    assert(tok_fnm@ =~= tok_filename());
    assert(tok_cnt@ =~= tok_count());
    assert(tok_dat@ =~= tok_date());
    assert(tok_tim@ =~= tok_time());
    assert(tok_nam@ =~= tok_name());
    let date_v = render_date(ts);
    let time_v = render_time(ts);
    let compact_v = render_compact(ts);
    let count_v = u64_to_dec((count as u64) + 1);
    let stem_v = file_stem(filename);
    assert(count_v@ == dec_digits(ctx.count + 1));
    let mut out: Vec<u8> = Vec::new();
    let mut i: usize = 0;
    proof {
        assert(fmt@.skip(0) =~= fmt@);
        assert(Seq::<u8>::empty() + format_spec(fmt@, ctx) =~= format_spec(fmt@, ctx));
    }
    while i < fmt.len()
        invariant
            i <= fmt.len(),
            count < usize::MAX,
            out@ + format_spec(fmt@.skip(i as int), ctx) == format_spec(fmt@, ctx),
            tok_tf@ == tok_top_folder(),
            tok_tsp@ == tok_timestamp(),
            tok_fnm@ == tok_filename(),
            tok_cnt@ == tok_count(),
            tok_dat@ == tok_date(),
            tok_tim@ == tok_time(),
            tok_nam@ == tok_name(),
            date_v@ == date_bytes(ctx.ts),
            time_v@ == time_bytes(ctx.ts),
            compact_v@ == compact_bytes(ctx.ts),
            count_v@ == dec_digits(ctx.count + 1),
            stem_v@ == stem_of(ctx.filename),
            top_folder@ == ctx.top_folder,
            filename@ == ctx.filename,
        decreases fmt.len() - i,
    {
        let ghost rest = fmt@.skip(i as int);
        assert(rest.len() > 0);
        if starts_with_at(fmt, i, &tok_tf) {
            append_bytes(&mut out, top_folder);
            proof {
                assert(rest.skip(11) =~= fmt@.skip(i + 11));
            }
            i += 11;
        } else if starts_with_at(fmt, i, &tok_tsp) {
            append_bytes(&mut out, &compact_v);
            proof {
                assert(rest.skip(10) =~= fmt@.skip(i + 10));
            }
            i += 10;
        } else if starts_with_at(fmt, i, &tok_fnm) {
            append_bytes(&mut out, filename);
            proof {
                assert(rest.skip(9) =~= fmt@.skip(i + 9));
            }
            i += 9;
        } else if starts_with_at(fmt, i, &tok_cnt) {
            append_bytes(&mut out, &count_v);
            proof {
                assert(rest.skip(6) =~= fmt@.skip(i + 6));
            }
            i += 6;
        } else if starts_with_at(fmt, i, &tok_dat) {
            append_bytes(&mut out, &date_v);
            proof {
                assert(rest.skip(5) =~= fmt@.skip(i + 5));
            }
            i += 5;
        } else if starts_with_at(fmt, i, &tok_tim) {
            append_bytes(&mut out, &time_v);
            proof {
                assert(rest.skip(5) =~= fmt@.skip(i + 5));
            }
            i += 5;
        } else if starts_with_at(fmt, i, &tok_nam) {
            append_bytes(&mut out, &stem_v);
            proof {
                assert(rest.skip(5) =~= fmt@.skip(i + 5));
            }
            i += 5;
        } else {
            let b = fmt[i];
            out.push(b);
            proof {
                assert(rest[0] == fmt@[i as int]);
                assert(rest.skip(1) =~= fmt@.skip(i + 1));
                assert(format_spec(rest, ctx) == seq![fmt@[i as int]] + format_spec(
                    fmt@.skip(i + 1),
                    ctx,
                ));
            }
            i += 1;
        }
    }
    assert(fmt@.skip(fmt@.len() as int) =~= Seq::<u8>::empty());
    assert(out@ + Seq::<u8>::empty() =~= out@);
    out
}

/// The formatter is a pure function of template and context: once the clock
/// value is fixed, two renderings of the same template under the same
/// context are one and the same string.
pub proof fn lemma_formatter_deterministic(tmpl: Seq<u8>, ctx: FmtCtx, r1: Seq<u8>, r2: Seq<u8>)
    requires
        r1 == format_spec(tmpl, ctx),
        r2 == format_spec(tmpl, ctx),
    ensures
        r1 == r2,
{
}

/// `$count` alone always renders as the decimal digits of one more than the
/// number of existing generations.
pub proof fn lemma_count_substitution(ctx: FmtCtx)
    ensures
        format_spec(tok_count(), ctx) == dec_digits(ctx.count + 1),
{
    let t = tok_count();
    assert(t.take(6) =~= t);
    assert(!match_at(t, tok_top_folder()));
    assert(!match_at(t, tok_timestamp()));
    assert(!match_at(t, tok_filename()));
    assert(match_at(t, tok_count()));
    assert(t.skip(6) =~= Seq::<u8>::empty());
    assert(format_spec(Seq::<u8>::empty(), ctx) == Seq::<u8>::empty());
    assert(format_spec(t, ctx) == dec_digits(ctx.count + 1) + format_spec(t.skip(6), ctx));
    assert(dec_digits(ctx.count + 1) + Seq::<u8>::empty() =~= dec_digits(ctx.count + 1));
}

/// A template in which no recognized token occurs renders as itself.
pub proof fn lemma_no_tokens_unchanged(tmpl: Seq<u8>, ctx: FmtCtx)
    requires
        forall|i: int| 0 <= i < tmpl.len() ==> !token_at(tmpl, i),
    ensures
        format_spec(tmpl, ctx) == tmpl,
    decreases tmpl.len(),
{
    if tmpl.len() == 0 {
        assert(format_spec(tmpl, ctx) =~= tmpl);
    } else {
        assert(tmpl.skip(0) =~= tmpl);
        assert(!token_at(tmpl, 0));
        let rest = tmpl.skip(1);
        assert forall|i: int| 0 <= i < rest.len() implies !token_at(rest, i) by {
            assert(rest.skip(i) =~= tmpl.skip(i + 1));
            assert(!token_at(tmpl, i + 1));
        }
        lemma_no_tokens_unchanged(rest, ctx);
        assert(format_spec(tmpl, ctx) == seq![tmpl[0]] + rest);
        assert(seq![tmpl[0]] + rest =~= tmpl);
    }
}

} // verus!
