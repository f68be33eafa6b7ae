//! The chain renderer: resolves each named segment to its content and
//! effective style (segment-local fields falling back to the global
//! style at render time), then walks the list in reverse display order
//! so every segment knows the background of the nearest visible segment
//! after it, and reassembles the pieces in display order.

use vstd::prelude::*;

use crate::chars::{dec_nat, dec_u64_string, str_eq};
use crate::color::Color;
use crate::conf::{config_model, ConfValue};
use crate::cwd::{
    path_components, path_components_x, path_display, path_display_x, spec_max_depth,
    spec_truncate, read_max_depth, tilde_components, tilde_components_x, truncate_components,
};
use crate::git::{spec_git_status_text, git_status_text};
use crate::gitinfo::{GitInfo, GitInfoV};
use crate::options::{
    spec_bool_field, spec_read_options, spec_read_style, spec_try_color_from_config,
    spec_try_text_props_from_config, read_bool, read_options, read_style, try_color_from_config,
    try_text_props_from_config, ModuleOptions, ModuleOptionsV, ModuleStyle,
};
use crate::render::{spec_format_for_module, format_for_module, Shell};
use crate::utils::ModuleError;

verus! {

/// One segment ready for the chain walk: its computed content (absent
/// for an invisible segment) and its fully effective options.
#[derive(Debug)]
pub struct Segment {
    pub content: Option<String>,
    pub options: ModuleOptions,
}

/// The mathematical shape of an assembled segment.
pub ghost struct SegmentV {
    pub content: Option<Seq<char>>,
    pub options: ModuleOptionsV,
}

impl View for Segment {
    type V = SegmentV;

    open spec fn view(&self) -> SegmentV {
        SegmentV {
            content: match self.content {
                Some(s) => Some(s@),
                None => None,
            },
            options: self.options@,
        }
    }
}

impl DeepView for Segment {
    type V = SegmentV;

    open spec fn deep_view(&self) -> SegmentV {
        self.view()
    }
}

/// A segment contributes to the prompt exactly when it has content.
pub open spec fn seg_visible(s: SegmentV) -> bool {
    s.content is Some
}

/// The content of a segment, empty when invisible.
pub open spec fn seg_content(s: SegmentV) -> Seq<char> {
    match s.content {
        Some(c) => c,
        None => Seq::empty(),
    }
}

/// The background of the first visible segment of the list — what the
/// segment standing just before the list paints its separator with.
/// Invisible segments never contribute.
pub open spec fn first_visible_bg(segs: Seq<SegmentV>) -> Option<Color>
    decreases segs.len(),
{
    if segs.len() == 0 {
        None
    } else if seg_visible(segs[0]) {
        segs[0].options.style.background
    } else {
        first_visible_bg(segs.drop_first())
    }
}

/// The rendered chain: each visible segment's rendering (with the
/// background of the nearest visible segment after it), concatenated in
/// display order; invisible segments vanish entirely. Errors from
/// later segments win, because the walk runs from the end.
pub open spec fn spec_chain(segs: Seq<SegmentV>, shell: Shell) -> Result<Seq<char>, ModuleError>
    decreases segs.len(),
{
    if segs.len() == 0 {
        Ok(Seq::empty())
    } else {
        let rest = spec_chain(segs.drop_first(), shell);
        if rest is Err {
            Err(rest->Err_0)
        } else if seg_visible(segs[0]) {
            match spec_format_for_module(
                seg_content(segs[0]),
                segs[0].options,
                first_visible_bg(segs.drop_first()),
                shell,
            ) {
                Ok(o) => Ok(o + rest->Ok_0),
                Err(e) => Err(e),
            }
        } else {
            Ok(rest->Ok_0)
        }
    }
}

/// An error anywhere in a suffix of the chain is the error of the whole
/// chain.
proof fn lemma_chain_err(segs: Seq<SegmentV>, shell: Shell, i: int)
    requires
        0 <= i <= segs.len(),
        spec_chain(segs.skip(i), shell) is Err,
    ensures
        spec_chain(segs, shell) == spec_chain(segs.skip(i), shell),
    decreases i,
{
    if i > 0 {
        assert(segs.skip(i - 1).drop_first() =~= segs.skip(i));
        lemma_chain_err(segs, shell, i - 1);
        assert(segs.skip(0) =~= segs);
    } else {
        assert(segs.skip(0) =~= segs);
    }
}

/// Chaining invariant: with segment `i` visible, segment `i + 1`
/// invisible and segment `i + 2` visible, segment `i`'s separator is
/// painted with segment `i + 2`'s background — the invisible segment in
/// between never appears as a separator background, and does not break
/// the chain between its visible neighbors.
pub proof fn lemma_chaining_invariant(segs: Seq<SegmentV>, shell: Shell, i: int)
    requires
        0 <= i,
        i + 2 < segs.len(),
        seg_visible(segs[i]),
        !seg_visible(segs[i + 1]),
        seg_visible(segs[i + 2]),
    ensures
        first_visible_bg(segs.skip(i + 1)) == segs[i + 2].options.style.background,
        spec_chain(segs.skip(i), shell) == ({
            let rest = spec_chain(segs.skip(i + 1), shell);
            if rest is Err {
                rest
            } else {
                match spec_format_for_module(
                    seg_content(segs[i]),
                    segs[i].options,
                    segs[i + 2].options.style.background,
                    shell,
                ) {
                    Ok(o) => Ok(o + rest->Ok_0),
                    Err(e) => Err(e),
                }
            }
        }),
{
    assert(segs.skip(i + 1)[0] == segs[i + 1]);
    assert(segs.skip(i + 1).drop_first() =~= segs.skip(i + 2));
    assert(segs.skip(i + 2)[0] == segs[i + 2]);
    assert(segs.skip(i)[0] == segs[i]);
    assert(segs.skip(i).drop_first() =~= segs.skip(i + 1));
}

/// After the last visible segment only `None` follows.
proof fn lemma_fvb_none(segs: Seq<SegmentV>, k: int)
    requires
        0 <= k <= segs.len(),
        forall|j: int| k <= j < segs.len() ==> !seg_visible(#[trigger] segs[j]),
    ensures
        first_visible_bg(segs.skip(k)) == None::<Color>,
    decreases segs.len() - k,
{
    if k < segs.len() {
        assert(segs.skip(k)[0] == segs[k]);
        assert(segs.skip(k).drop_first() =~= segs.skip(k + 1));
        lemma_fvb_none(segs, k + 1);
    }
}

/// Boundary: the last visible segment in display order renders its
/// separator with no following background at all — flat, and no error
/// on that account.
pub proof fn lemma_last_visible_flat(segs: Seq<SegmentV>, shell: Shell, i: int)
    requires
        0 <= i < segs.len(),
        seg_visible(segs[i]),
        forall|j: int| i < j < segs.len() ==> !seg_visible(#[trigger] segs[j]),
    ensures
        first_visible_bg(segs.skip(i + 1)) == None::<Color>,
        spec_chain(segs.skip(i), shell) == ({
            let rest = spec_chain(segs.skip(i + 1), shell);
            if rest is Err {
                rest
            } else {
                match spec_format_for_module(
                    seg_content(segs[i]),
                    segs[i].options,
                    None::<Color>,
                    shell,
                ) {
                    Ok(o) => Ok(o + rest->Ok_0),
                    Err(e) => Err(e),
                }
            }
        }),
{
    lemma_fvb_none(segs, i + 1);
    assert(segs.skip(i)[0] == segs[i]);
    assert(segs.skip(i).drop_first() =~= segs.skip(i + 1));
}

/// Walks the assembled segments in reverse display order, maintaining
/// the background of the nearest visible segment seen so far, and
/// prepends each rendered piece to the accumulator, so the result comes
/// out in display order.
pub fn chain_segments(segs: &Vec<Segment>, shell: Shell) -> (r: Result<String, ModuleError>)
    ensures
        ({
            let s = spec_chain(segs.deep_view(), shell);
            match r {
                Ok(o) => s == Ok::<Seq<char>, ModuleError>(o@),
                Err(e) => s == Err::<Seq<char>, ModuleError>(e),
            }
        }),
{
    let ghost dv = segs.deep_view();
    let mut out = String::new();
    let mut next_bg: Option<Color> = None;
    let mut i: usize = segs.len();
    proof {
        assert(dv.skip(segs.len() as int) =~= Seq::<SegmentV>::empty());
    }
    while i > 0
        invariant
            i <= segs.len(),
            dv == segs.deep_view(),
            dv.len() == segs.len(),
            spec_chain(dv.skip(i as int), shell) == Ok::<Seq<char>, ModuleError>(out@),
            next_bg == first_visible_bg(dv.skip(i as int)),
        decreases i,
    {
        i -= 1;
        proof {
            assert(dv.skip(i as int)[0] == dv[i as int]);
            assert(dv.skip(i as int).drop_first() =~= dv.skip(i + 1));
        }
        match &segs[i].content {
            Some(content) => {
                match format_for_module(content.as_str(), &segs[i].options, next_bg, shell) {
                    Ok(piece) => {
                        let mut fresh = piece;
                        fresh.append(out.as_str());
                        out = fresh;
                        next_bg = segs[i].options.style.background;
                    },
                    Err(e) => {
                        proof {
                            lemma_chain_err(dv, shell, i as int);
                        }
                        return Err(e);
                    },
                }
            },
            None => {},
        }
    }
    proof {
        assert(dv.skip(0) =~= dv);
    }
    Ok(out)
}

/// The global default style, from `global.foreground`,
/// `global.background` and `global.style`.
pub open spec fn spec_global_style(m: Map<Seq<char>, ConfValue>) -> Result<
    ModuleStyle,
    ModuleError,
> {
    let fg = spec_try_color_from_config(m, "global.foreground"@);
    let bg = spec_try_color_from_config(m, "global.background"@);
    let tp = spec_try_text_props_from_config(m, "global.style"@);
    if fg is Err {
        Err(fg->Err_0)
    } else if bg is Err {
        Err(bg->Err_0)
    } else if tp is Err {
        Err(tp->Err_0)
    } else {
        Ok(ModuleStyle { background: bg->Ok_0, foreground: fg->Ok_0, text_properties: tp->Ok_0 })
    }
}

/// Reads the global default style.
pub fn global_style(c: &config::Config) -> (r: Result<ModuleStyle, ModuleError>)
    ensures
        r == spec_global_style(config_model(c)),
{
    let fg = try_color_from_config("global.foreground", c)?;
    let bg = try_color_from_config("global.background", c)?;
    let tp = try_text_props_from_config("global.style", c)?;
    Ok(ModuleStyle { background: bg, foreground: fg, text_properties: tp })
}

/// A segment style with its absent fields inherited from the global
/// default, field by field, at render time.
pub open spec fn merge_style(seg: ModuleStyle, glob: ModuleStyle) -> ModuleStyle {
    ModuleStyle {
        background: match seg.background {
            Some(c) => Some(c),
            None => glob.background,
        },
        foreground: match seg.foreground {
            Some(c) => Some(c),
            None => glob.foreground,
        },
        text_properties: match seg.text_properties {
            Some(a) => Some(a),
            None => glob.text_properties,
        },
    }
}

/// Exec counterpart of `merge_style`.
pub fn merge_style_x(seg: &ModuleStyle, glob: &ModuleStyle) -> (r: ModuleStyle)
    ensures
        r == merge_style(*seg, *glob),
{
    ModuleStyle {
        background: match seg.background {
            Some(c) => Some(c),
            None => glob.background,
        },
        foreground: match seg.foreground {
            Some(c) => Some(c),
            None => glob.foreground,
        },
        text_properties: match seg.text_properties {
            Some(a) => Some(a),
            None => glob.text_properties,
        },
    }
}

/// What one named segment resolves to before the chain walk: its
/// options (with the style made effective against the global default),
/// and its computed content. `exit_code` and `prompt` take their
/// success or error sub-style (replacing the segment style outright,
/// then inheriting globals); `git` is invisible without a snapshot or
/// with an empty status text; `cwd` and `directory` show the truncated
/// working directory; any other name is a user-defined segment whose
/// visibility is its configured output.
pub open spec fn spec_segment_for(
    m: Map<Seq<char>, ConfValue>,
    name: Seq<char>,
    exit_code: u8,
    pwd: Seq<char>,
    home: Option<Seq<char>>,
    git: Option<GitInfoV>,
) -> Result<SegmentV, ModuleError> {
    let opts = spec_read_options(m, name);
    if opts is Err {
        Err(opts->Err_0)
    } else {
        let o = opts->Ok_0;
        let picked = if name == "exit_code"@ || name == "prompt"@ {
            let ss = spec_read_style(m, crate::options::spec_module_key(name, "style_success"@));
            let es = spec_read_style(m, crate::options::spec_module_key(name, "style_error"@));
            if ss is Err {
                Err(ss->Err_0)
            } else if es is Err {
                Err(es->Err_0)
            } else {
                let style = if exit_code == 0 {
                    ss->Ok_0
                } else {
                    es->Ok_0
                };
                let content = if name == "exit_code"@ {
                    dec_nat(exit_code as nat)
                } else {
                    "$"@
                };
                Ok(SegmentV { content: Some(content), options: ModuleOptionsV { style, ..o } })
            }
        } else if name == "cwd"@ || name == "directory"@ {
            let md = spec_max_depth(m, crate::options::spec_module_key(name, "max_depth"@), 4);
            if md is Err {
                Err(md->Err_0)
            } else {
                let middle = spec_bool_field(m, crate::options::spec_module_key(name, "truncate_middle"@), false);
                if middle is Err {
                    Err(middle->Err_0)
                } else {
                    let comps = match home {
                        Some(h) => tilde_components(path_components(pwd), path_components(h)),
                        None => path_components(pwd),
                    };
                    let display = path_display(spec_truncate(comps, md->Ok_0, middle->Ok_0));
                    Ok(SegmentV { content: Some(display), options: o })
                }
            }
        } else if name == "git"@ {
            let content = match git {
                Some(gi) => if spec_git_status_text(gi).len() == 0 {
                    None
                } else {
                    Some(spec_git_status_text(gi))
                },
                None => None,
            };
            Ok(SegmentV { content, options: o })
        } else {
            let content = if o.output is Some {
                Some(Seq::<char>::empty())
            } else {
                None
            };
            Ok(SegmentV { content, options: o })
        };
        if picked is Err {
            Err(picked->Err_0)
        } else {
            let glob = spec_global_style(m);
            if glob is Err {
                Err(glob->Err_0)
            } else {
                let sv = picked->Ok_0;
                Ok(
                    SegmentV {
                        content: sv.content,
                        options: ModuleOptionsV {
                            style: merge_style(sv.options.style, glob->Ok_0),
                            ..sv.options
                        },
                    },
                )
            }
        }
    }
}

/// Resolves one named segment.
pub fn segment_for(
    c: &config::Config,
    name: &str,
    exit_code: u8,
    pwd: &str,
    home: Option<&str>,
    git: Option<&GitInfo>,
) -> (r: Result<Segment, ModuleError>)
    ensures
        ({
            let s = spec_segment_for(
                config_model(c),
                name@,
                exit_code,
                pwd@,
                crate::utils::view_opt_str(home),
                match git {
                    Some(gi) => Some(gi@),
                    None => None,
                },
            );
            match r {
                Ok(sv) => s == Ok::<SegmentV, ModuleError>(sv@),
                Err(e) => s == Err::<SegmentV, ModuleError>(e),
            }
        }),
{
    let mut options = read_options(name, c)?;
    let content: Option<String> = if str_eq(name, "exit_code") || str_eq(name, "prompt") {
        let ss_key = crate::options::module_key(name, "style_success");
        let ss = read_style(ss_key.as_str(), c)?;
        let es_key = crate::options::module_key(name, "style_error");
        let es = read_style(es_key.as_str(), c)?;
        options.style = if exit_code == 0 {
            ss
        } else {
            es
        };
        if str_eq(name, "exit_code") {
            Some(dec_u64_string(exit_code as u64))
        } else {
            Some(String::from_str("$"))
        }
    } else if str_eq(name, "cwd") || str_eq(name, "directory") {
        let md_key = crate::options::module_key(name, "max_depth");
        let md = read_max_depth(md_key.as_str(), c, 4)?;
        let mid_key = crate::options::module_key(name, "truncate_middle");
        let middle = read_bool(mid_key.as_str(), c, false)?;
        let comps = match home {
            Some(h) => {
                let hc = path_components_x(h);
                tilde_components_x(path_components_x(pwd), &hc)
            },
            None => path_components_x(pwd),
        };
        let display = path_display_x(&truncate_components(comps, md, middle));
        Some(display)
    } else if str_eq(name, "git") {
        match git {
            Some(gi) => {
                let text = git_status_text(gi);
                if text.as_str().unicode_len() == 0 {
                    None
                } else {
                    Some(text)
                }
            },
            None => None,
        }
    } else {
        if options.output.is_some() {
            Some(String::new())
        } else {
            None
        }
    };
    let glob = global_style(c)?;
    options.style = merge_style_x(&options.style, &glob);
    Ok(Segment { content, options })
}

/// The assembled segment list, in display order; the first failing
/// segment (left to right) decides the error.
pub open spec fn spec_assemble(
    m: Map<Seq<char>, ConfValue>,
    names: Seq<Seq<char>>,
    exit_code: u8,
    pwd: Seq<char>,
    home: Option<Seq<char>>,
    git: Option<GitInfoV>,
) -> Result<Seq<SegmentV>, ModuleError>
    decreases names.len(),
{
    if names.len() == 0 {
        Ok(Seq::empty())
    } else {
        let front = spec_assemble(m, names.drop_last(), exit_code, pwd, home, git);
        if front is Err {
            Err(front->Err_0)
        } else {
            let h = spec_segment_for(m, names.last(), exit_code, pwd, home, git);
            if h is Err {
                Err(h->Err_0)
            } else {
                Ok(front->Ok_0.push(h->Ok_0))
            }
        }
    }
}

/// What the whole prompt renders to: the named segments assembled, then
/// chained.
pub open spec fn spec_render_prompt(
    m: Map<Seq<char>, ConfValue>,
    names: Seq<Seq<char>>,
    shell: Shell,
    exit_code: u8,
    pwd: Seq<char>,
    home: Option<Seq<char>>,
    git: Option<GitInfoV>,
) -> Result<Seq<char>, ModuleError> {
    match spec_assemble(m, names, exit_code, pwd, home, git) {
        Err(e) => Err(e),
        Ok(segs) => spec_chain(segs, shell),
    }
}

/// Renders the whole prompt: one pass, left to right in configuration
/// order, each segment's separator painted with the background of the
/// next visible segment. `pwd`, `home` and `git` are plain values the
/// caller supplies from the environment; everything from here on is a
/// pure function of them and the configuration.
pub fn render_prompt(
    c: &config::Config,
    names: &Vec<String>,
    shell: Shell,
    exit_code: u8,
    pwd: &str,
    home: Option<&str>,
    git: Option<&GitInfo>,
) -> (r: Result<String, ModuleError>)
    ensures
        ({
            let s = spec_render_prompt(
                config_model(c),
                names.deep_view(),
                shell,
                exit_code,
                pwd@,
                crate::utils::view_opt_str(home),
                match git {
                    Some(gi) => Some(gi@),
                    None => None,
                },
            );
            match r {
                Ok(o) => s == Ok::<Seq<char>, ModuleError>(o@),
                Err(e) => s == Err::<Seq<char>, ModuleError>(e),
            }
        }),
{
    let ghost nv = names.deep_view();
    let ghost gv: Option<GitInfoV> = match git {
        Some(gi) => Some(gi@),
        None => None,
    };
    let mut segs: Vec<Segment> = Vec::new();
    let mut i: usize = 0;
    proof {
        assert(nv.take(0) =~= Seq::<Seq<char>>::empty());
        assert(segs.deep_view() =~~= Seq::<SegmentV>::empty());
    }
    while i < names.len()
        invariant
            i <= names.len(),
            nv == names.deep_view(),
            nv.len() == names.len(),
            gv == (match git {
                Some(gi) => Some(gi@),
                None => None::<GitInfoV>,
            }),
            spec_assemble(
                config_model(c),
                nv.take(i as int),
                exit_code,
                pwd@,
                crate::utils::view_opt_str(home),
                gv,
            ) == Ok::<Seq<SegmentV>, ModuleError>(segs.deep_view()),
        decreases names.len() - i,
    {
        proof {
            assert(nv.take(i + 1).drop_last() =~= nv.take(i as int));
            assert(nv.take(i + 1).last() == nv[i as int]);
            assert(names@[i as int]@ == nv[i as int]);
        }
        let ghost old_dv = segs.deep_view();
        match segment_for(c, names[i].as_str(), exit_code, pwd, home, git) {
            Ok(seg) => {
                segs.push(seg);
                proof {
                    assert(segs.deep_view() =~~= old_dv.push(seg@));
                }
            },
            Err(e) => {
                proof {
                    lemma_assemble_err(
                        config_model(c),
                        nv,
                        exit_code,
                        pwd@,
                        crate::utils::view_opt_str(home),
                        gv,
                        i + 1,
                    );
                }
                return Err(e);
            },
        }
        i += 1;
    }
    proof {
        assert(nv.take(names.len() as int) =~= nv);
    }
    chain_segments(&segs, shell)
}

/// An error while assembling a prefix is the error of the whole
/// assembly.
proof fn lemma_assemble_err(
    m: Map<Seq<char>, ConfValue>,
    names: Seq<Seq<char>>,
    exit_code: u8,
    pwd: Seq<char>,
    home: Option<Seq<char>>,
    git: Option<GitInfoV>,
    i: int,
)
    requires
        0 <= i <= names.len(),
        spec_assemble(m, names.take(i), exit_code, pwd, home, git) is Err,
    ensures
        spec_assemble(m, names, exit_code, pwd, home, git) == spec_assemble(
            m,
            names.take(i),
            exit_code,
            pwd,
            home,
            git,
        ),
    decreases names.len() - i,
{
    if i == names.len() {
        assert(names.take(i) =~= names);
    } else {
        assert(names.take(i + 1).drop_last() =~= names.take(i));
        lemma_assemble_err(m, names, exit_code, pwd, home, git, i + 1);
    }
}

} // verus!
