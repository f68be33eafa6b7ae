//! The working-directory segment: splitting a path into components,
//! substituting the home prefix with `~`, truncating deep paths to a
//! configured depth, and rendering the result.

use vstd::prelude::*;

use crate::color::Color;
use crate::conf::{conf_lookup, config_get, config_model, ConfValue};
use crate::options::{spec_read_options, read_options};
use crate::render::{spec_format_for_module, format_for_module, Shell};
use crate::utils::{FormatResult, FormatResultV, ModuleError};

verus! {

/// The non-empty pieces of a path between slashes.
pub open spec fn path_pieces(s: Seq<char>) -> Seq<Seq<char>>
    decreases s.len(),
{
    if s.len() == 0 {
        Seq::empty()
    } else {
        let rest = path_pieces(s.drop_last());
        let c = s.last();
        if c == '/' {
            rest
        } else if s.len() >= 2 && s[s.len() - 2] != '/' {
            rest.update(rest.len() - 1, rest.last().push(c))
        } else {
            rest.push(seq![c])
        }
    }
}

/// A string that ends in a non-slash yields at least one piece.
pub proof fn lemma_path_pieces_nonempty(s: Seq<char>)
    requires
        s.len() > 0,
        s.last() != '/',
    ensures
        path_pieces(s).len() >= 1,
    decreases s.len(),
{
    if s.len() >= 2 && s[s.len() - 2] != '/' {
        lemma_path_pieces_nonempty(s.drop_last());
    }
}

/// The components of a path: a leading root component for an absolute
/// path, then the pieces between slashes.
pub open spec fn path_components(s: Seq<char>) -> Seq<Seq<char>> {
    if s.len() > 0 && s[0] == '/' {
        seq!["/"@] + path_pieces(s)
    } else {
        path_pieces(s)
    }
}

/// How the pieces evolve as one more character is read.
proof fn lemma_path_pieces_step(s: Seq<char>, i: int)
    requires
        0 <= i < s.len(),
    ensures
        s[i] == '/' ==> path_pieces(s.take(i + 1)) == path_pieces(s.take(i)),
        s[i] != '/' && (i == 0 || s[i - 1] == '/') ==> path_pieces(s.take(i + 1)) == path_pieces(
            s.take(i),
        ).push(seq![s[i]]),
        s[i] != '/' && i > 0 && s[i - 1] != '/' ==> path_pieces(s.take(i)).len() >= 1
            && path_pieces(s.take(i + 1)) == path_pieces(s.take(i)).update(
            path_pieces(s.take(i)).len() - 1,
            path_pieces(s.take(i)).last().push(s[i]),
        ),
{
    assert(s.take(i + 1).drop_last() =~= s.take(i));
    assert(s.take(i + 1).last() == s[i]);
    if s[i] != '/' && i > 0 && s[i - 1] != '/' {
        lemma_path_pieces_nonempty(s.take(i));
    }
}

/// Splits a path into its pieces between slashes.
fn path_pieces_x(s: &str) -> (v: Vec<String>)
    ensures
        v.deep_view() == path_pieces(s@),
{
    let n = s.unicode_len();
    let mut v: Vec<String> = Vec::new();
    proof {
        assert(v.deep_view() =~~= path_pieces(s@.take(0)));
    }
    let mut i: usize = 0;
    let mut prev_slash = true;
    while i < n
        invariant
            i <= n,
            n == s@.len(),
            v.deep_view() == path_pieces(s@.take(i as int)),
            prev_slash == (i == 0 || s@[i - 1] == '/'),
        decreases n - i,
    {
        let c = s.get_char(i);
        let ghost old_dv = v.deep_view();
        proof {
            lemma_path_pieces_step(s@, i as int);
        }
        if c == '/' {
            proof {
                assert(v.deep_view() == path_pieces(s@.take(i + 1)));
            }
            prev_slash = true;
        } else {
            let piece_str = s.substring_char(i, i + 1);
            proof {
                assert(piece_str@ =~= seq![s@[i as int]]);
            }
            if prev_slash {
                v.push(String::from_str(piece_str));
                proof {
                    assert(v.deep_view() =~~= old_dv.push(seq![s@[i as int]]));
                }
            } else {
                let mut last_piece = match v.pop() {
                    Some(p) => p,
                    None => String::new(),
                };
                last_piece.append(piece_str);
                v.push(last_piece);
                proof {
                    assert(old_dv.last().push(s@[i as int]) =~= old_dv.last() + piece_str@);
                    assert(v.deep_view() =~~= old_dv.update(
                        old_dv.len() - 1,
                        old_dv.last().push(s@[i as int]),
                    ));
                }
            }
            prev_slash = false;
        }
        i += 1;
    }
    proof {
        assert(s@.take(n as int) =~= s@);
    }
    v
}

/// Splits a path into its components (root component included).
pub fn path_components_x(s: &str) -> (v: Vec<String>)
    ensures
        v.deep_view() == path_components(s@),
{
    let pieces = path_pieces_x(s);
    if s.unicode_len() > 0 && s.get_char(0) == '/' {
        let mut v: Vec<String> = Vec::new();
        v.push(String::from_str("/"));
        let mut i: usize = 0;
        while i < pieces.len()
            invariant
                i <= pieces.len(),
                pieces.deep_view() == path_pieces(s@),
                v.deep_view() =~= seq!["/"@] + path_pieces(s@).take(i as int),
            decreases pieces.len() - i,
        {
            let ghost old_dv = v.deep_view();
            let p = &pieces[i];
            v.push(p.clone());
            proof {
                assert(path_pieces(s@).take(i + 1).drop_last() =~= path_pieces(s@).take(i as int));
                assert(v.deep_view() =~~= old_dv.push(path_pieces(s@)[i as int]));
                assert(v.deep_view() =~= seq!["/"@] + path_pieces(s@).take(i + 1));
            }
            i += 1;
        }
        proof {
            assert(path_pieces(s@).take(pieces.len() as int) =~= path_pieces(s@));
        }
        v
    } else {
        pieces
    }
}

/// Components joined with slashes (no leading slash handling).
pub open spec fn join_slash(l: Seq<Seq<char>>) -> Seq<char>
    decreases l.len(),
{
    if l.len() == 0 {
        Seq::empty()
    } else if l.len() == 1 {
        l[0]
    } else {
        join_slash(l.drop_last()) + seq!['/'] + l.last()
    }
}

/// The displayed form of a component list: an absolute path puts its
/// remaining components behind the root slash, anything else joins the
/// components with slashes.
pub open spec fn path_display(comps: Seq<Seq<char>>) -> Seq<char> {
    if comps.len() > 0 && comps[0] == "/"@ {
        seq!['/'] + join_slash(comps.drop_first())
    } else {
        join_slash(comps)
    }
}

/// Appending one component to a joined path.
pub proof fn lemma_join_slash_push(l: Seq<Seq<char>>, x: Seq<char>)
    ensures
        join_slash(l.push(x)) == if l.len() == 0 {
            x
        } else {
            join_slash(l) + seq!['/'] + x
        },
{
    assert(l.push(x).drop_last() =~= l);
    assert(l.push(x).last() == x);
    if l.len() == 0 {
        assert(join_slash(l.push(x)) == l.push(x)[0]);
    }
}

/// Joins components into the displayed path.
pub fn path_display_x(comps: &Vec<String>) -> (r: String)
    ensures
        r@ == path_display(comps.deep_view()),
{
    let ghost dv = comps.deep_view();
    let mut out = String::new();
    let mut start: usize = 0;
    if comps.len() > 0 && crate::chars::str_eq(comps[0].as_str(), "/") {
        out.append("/");
        start = 1;
        proof {
            reveal_strlit("/");
        }
    }
    let ghost rest = if start == 1 {
        dv.drop_first()
    } else {
        dv
    };
    let mut i: usize = start;
    while i < comps.len()
        invariant
            start <= 1,
            start <= i <= comps.len(),
            dv == comps.deep_view(),
            dv.len() == comps.len(),
            start == 1 ==> dv.len() > 0 && dv[0] == "/"@,
            rest == if start == 1 {
                dv.drop_first()
            } else {
                dv
            },
            out@ == (if start == 1 {
                seq!['/']
            } else {
                Seq::<char>::empty()
            }) + join_slash(rest.take(i - start)),
        decreases comps.len() - i,
    {
        if i > start {
            out.append("/");
        }
        out.append(comps[i].as_str());
        proof {
            reveal_strlit("/");
            assert(rest[i - start] == dv[i as int]);
            lemma_join_slash_push(rest.take(i - start), rest[i - start]);
            assert(rest.take(i - start).push(rest[i - start]) =~= rest.take(i - start + 1));
            assert(out@ =~= (if start == 1 {
                seq!['/']
            } else {
                Seq::<char>::empty()
            }) + join_slash(rest.take(i - start + 1)));
        }
        i += 1;
    }
    proof {
        assert(rest.take(comps.len() - start) =~= rest);
        reveal_strlit("/");
        assert(out@ =~= path_display(dv));
    }
    out
}

/// The home prefix replaced by `~`, component-wise, when it is a prefix.
pub open spec fn tilde_components(cwd: Seq<Seq<char>>, home: Seq<Seq<char>>) -> Seq<Seq<char>> {
    if home.is_prefix_of(cwd) {
        seq!["~"@] + cwd.skip(home.len() as int)
    } else {
        cwd
    }
}

/// Substitutes a leading home prefix with `~`.
pub fn tilde_components_x(cwd: Vec<String>, home: &Vec<String>) -> (r: Vec<String>)
    ensures
        r.deep_view() == tilde_components(cwd.deep_view(), home.deep_view()),
{
    let ghost cv = cwd.deep_view();
    let ghost hv = home.deep_view();
    if home.len() > cwd.len() {
        proof {
            assert(!hv.is_prefix_of(cv));
        }
        return cwd;
    }
    let mut i: usize = 0;
    while i < home.len()
        invariant
            i <= home.len() <= cwd.len(),
            cv == cwd.deep_view(),
            hv == home.deep_view(),
            hv.len() == home.len(),
            cv.len() == cwd.len(),
            forall|j: int| 0 <= j < i ==> cv[j] == hv[j],
        decreases home.len() - i,
    {
        if !crate::chars::str_eq(cwd[i].as_str(), home[i].as_str()) {
            proof {
                assert(cv[i as int] != hv[i as int]);
                assert(!hv.is_prefix_of(cv));
            }
            return cwd;
        }
        i += 1;
    }
    proof {
        assert(hv =~= cv.take(hv.len() as int));
        assert(hv.is_prefix_of(cv));
    }
    let mut r: Vec<String> = Vec::new();
    r.push(String::from_str("~"));
    let mut k: usize = home.len();
    while k < cwd.len()
        invariant
            home.len() <= k <= cwd.len(),
            cv == cwd.deep_view(),
            hv.len() == home.len(),
            cv.len() == cwd.len(),
            r.deep_view() =~= seq!["~"@] + cv.subrange(hv.len() as int, k as int),
        decreases cwd.len() - k,
    {
        let ghost old_dv = r.deep_view();
        r.push(cwd[k].clone());
        proof {
            assert(r.deep_view() =~~= old_dv.push(cv[k as int]));
            assert(r.deep_view() =~= seq!["~"@] + cv.subrange(hv.len() as int, k + 1));
        }
        k += 1;
    }
    proof {
        assert(cv.subrange(hv.len() as int, cv.len() as int) =~= cv.skip(hv.len() as int));
    }
    r
}

/// Truncation of a too-deep path: the middle policy keeps the first
/// and last `max_depth / 2` components around a single ellipsis; the
/// leading policy keeps only the last `max_depth` components behind a
/// single ellipsis. A path within the depth limit is untouched.
pub open spec fn spec_truncate(comps: Seq<Seq<char>>, md: int, middle: bool) -> Seq<Seq<char>> {
    if comps.len() <= md {
        comps
    } else if middle {
        comps.take(md / 2) + seq!["..."@] + comps.skip(comps.len() - md / 2)
    } else {
        seq!["..."@] + comps.skip(comps.len() - md)
    }
}

/// Truncating a path deeper than an (even) maximum depth yields
/// exactly `max_depth` of its own components plus exactly one ellipsis
/// marker, whichever truncation policy is chosen. (For an odd maximum
/// depth the middle policy keeps one component fewer.)
pub proof fn lemma_truncation_depth(comps: Seq<Seq<char>>, md: int, middle: bool)
    requires
        comps.len() > md >= 0,
        middle ==> md % 2 == 0,
        forall|j: int| 0 <= j < comps.len() ==> comps[j] != "..."@,
    ensures
        spec_truncate(comps, md, middle).len() == md + 1,
        spec_truncate(comps, md, middle)[if middle {
            md / 2
        } else {
            0int
        }] == "..."@,
        forall|k: int|
            0 <= k < spec_truncate(comps, md, middle).len() && k != (if middle {
                md / 2
            } else {
                0int
            }) ==> #[trigger] spec_truncate(comps, md, middle)[k] != "..."@,
{
    let t = spec_truncate(comps, md, middle);
    if middle {
        assert(t.len() == md + 1);
        assert forall|k: int| 0 <= k < t.len() && k != md / 2 implies #[trigger] t[k] != "..."@ by {
            if k < md / 2 {
                assert(t[k] == comps[k]);
            } else {
                assert(t[k] == comps[comps.len() - md / 2 + (k - md / 2 - 1)]);
            }
        }
    } else {
        assert(t.len() == md + 1);
        assert forall|k: int| 0 <= k < t.len() && k != 0 implies #[trigger] t[k] != "..."@ by {
            assert(t[k] == comps[comps.len() - md + (k - 1)]);
        }
    }
}

/// Truncates a component list to the configured depth.
pub fn truncate_components(comps: Vec<String>, max_depth: u64, middle: bool) -> (r: Vec<String>)
    ensures
        r.deep_view() == spec_truncate(comps.deep_view(), max_depth as int, middle),
{
    let ghost cv = comps.deep_view();
    if comps.len() as u64 <= max_depth {
        return comps;
    }
    let len = comps.len();
    let mut r: Vec<String> = Vec::new();
    if middle {
        let half = (max_depth / 2) as usize;
        let mut i: usize = 0;
        while i < half
            invariant
                i <= half,
                half <= len == comps.len(),
                cv == comps.deep_view(),
                r.deep_view() =~= cv.take(i as int),
            decreases half - i,
        {
            let ghost old_dv = r.deep_view();
            r.push(comps[i].clone());
            proof {
                assert(r.deep_view() =~~= old_dv.push(cv[i as int]));
                assert(r.deep_view() =~= cv.take(i + 1));
            }
            i += 1;
        }
        r.push(String::from_str("..."));
        proof {
            assert(r.deep_view() =~= cv.take(half as int) + seq!["..."@]);
        }
        let mut k: usize = len - half;
        while k < len
            invariant
                len - half <= k <= len,
                half <= len == comps.len(),
                cv == comps.deep_view(),
                r.deep_view() =~= cv.take(half as int) + seq!["..."@] + cv.subrange(
                    len - half,
                    k as int,
                ),
            decreases len - k,
        {
            let ghost old_dv = r.deep_view();
            r.push(comps[k].clone());
            proof {
                assert(r.deep_view() =~~= old_dv.push(cv[k as int]));
                assert(r.deep_view() =~= cv.take(half as int) + seq!["..."@] + cv.subrange(
                    len - half,
                    k + 1,
                ));
            }
            k += 1;
        }
        proof {
            assert(cv.subrange(len - half, len as int) =~= cv.skip(len - half));
        }
        r
    } else {
        let keep = max_depth as usize;
        r.push(String::from_str("..."));
        proof {
            assert(r.deep_view() =~= seq!["..."@] + cv.subrange(
                len - keep,
                (len - keep) as int,
            ));
        }
        let mut k: usize = len - keep;
        while k < len
            invariant
                len - keep <= k <= len,
                keep < len == comps.len(),
                cv == comps.deep_view(),
                r.deep_view() =~= seq!["..."@] + cv.subrange(len - keep, k as int),
            decreases len - k,
        {
            let ghost old_dv = r.deep_view();
            r.push(comps[k].clone());
            proof {
                assert(r.deep_view() =~~= old_dv.push(cv[k as int]));
                assert(r.deep_view() =~= seq!["..."@] + cv.subrange(len - keep, k + 1));
            }
            k += 1;
        }
        proof {
            assert(cv.subrange(len - keep, len as int) =~= cv.skip(len - keep));
        }
        r
    }
}

/// An integer depth limit: absent means the default, a negative value
/// or any other kind is a type error.
pub open spec fn spec_max_depth(m: Map<Seq<char>, ConfValue>, key: Seq<char>, default: int) -> Result<
    int,
    ModuleError,
> {
    match conf_lookup(m, key) {
        None => Ok(default),
        Some(ConfValue::Int(n)) => if n >= 0 {
            Ok(n as int)
        } else {
            Err(ModuleError::InvalidType)
        },
        Some(_) => Err(ModuleError::InvalidType),
    }
}

/// Reads a depth limit from the configuration.
pub fn read_max_depth(key: &str, config: &config::Config, default: u64) -> (r: Result<
    u64,
    ModuleError,
>)
    ensures
        ({
            let s = spec_max_depth(config_model(config), key@, default as int);
            match r {
                Ok(v) => s == Ok::<int, ModuleError>(v as int),
                Err(e) => s == Err::<int, ModuleError>(e),
            }
        }),
{
    match config_get(config, key) {
        None => Ok(default),
        Some(ConfValue::Int(n)) => if n >= 0 {
            Ok(n as u64)
        } else {
            Err(ModuleError::InvalidType)
        },
        Some(_) => Err(ModuleError::InvalidType),
    }
}

/// The displayed working directory: its components, the home prefix
/// replaced by `~`, truncated behind a leading ellipsis when deeper
/// than `md`.
pub open spec fn spec_cwd_display(pwd: Seq<char>, home: Option<Seq<char>>, md: int) -> Seq<char> {
    let c0 = path_components(pwd);
    let c1 = match home {
        Some(h) => tilde_components(c0, path_components(h)),
        None => c0,
    };
    path_display(spec_truncate(c1, md, false))
}

/// What the working-directory segment yields: its displayed path in
/// the segment's own options, visible whenever the configuration reads
/// cleanly (depth limit `modules.cwd.max_depth`, default 4).
pub open spec fn spec_format_cwd(
    m: Map<Seq<char>, ConfValue>,
    pwd: Seq<char>,
    home: Option<Seq<char>>,
    next_bg: Option<Color>,
    shell: Shell,
) -> Result<FormatResultV, ModuleError> {
    let opts = spec_read_options(m, "cwd"@);
    if opts is Err {
        Err(opts->Err_0)
    } else {
        let md = spec_max_depth(m, "modules.cwd.max_depth"@, 4);
        if md is Err {
            Err(md->Err_0)
        } else {
            match spec_format_for_module(
                spec_cwd_display(pwd, home, md->Ok_0),
                opts->Ok_0,
                next_bg,
                shell,
            ) {
                Ok(o) => Ok(
                    FormatResultV { output: Some(o), next_bg: opts->Ok_0.style.background },
                ),
                Err(e) => Err(e),
            }
        }
    }
}

/// Formats the working directory using the options in the
/// configuration.
///
/// `pwd` is the shell's own idea of the working directory (so symlinks
/// show as the shell sees them) and `home` the home directory, if
/// known; both are plain values handed in by the caller. Never fails
/// on account of the path itself, only on bad configuration.
pub fn format_cwd(
    c: &config::Config,
    pwd: &str,
    home: Option<&str>,
    next_bg: Option<Color>,
    shell: Shell,
) -> (r: Result<FormatResult, ModuleError>)
    ensures
        ({
            let s = spec_format_cwd(
                config_model(c),
                pwd@,
                match home {
                    Some(h) => Some(h@),
                    None => None,
                },
                next_bg,
                shell,
            );
            match r {
                Ok(o) => s == Ok::<FormatResultV, ModuleError>(o@),
                Err(e) => s == Err::<FormatResultV, ModuleError>(e),
            }
        }),
{
    let options = read_options("cwd", c)?;
    let md = read_max_depth("modules.cwd.max_depth", c, 4)?;
    let comps0 = path_components_x(pwd);
    let comps1 = match home {
        Some(h) => {
            let hc = path_components_x(h);
            tilde_components_x(comps0, &hc)
        },
        None => comps0,
    };
    let truncated = truncate_components(comps1, md, false);
    let display = path_display_x(&truncated);
    match format_for_module(display.as_str(), &options, next_bg, shell) {
        Ok(o) => Ok(FormatResult { output: Some(o), next_bg: options.style.background }),
        Err(e) => Err(e),
    }
}

} // verus!
