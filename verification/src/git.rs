//! The git-status segment: the branch name, a change marker when the
//! working tree differs from the index, and ahead/behind counts against
//! upstream — assembled from a plain repository snapshot, so every step
//! after the repository queries is verified for every snapshot.

use vstd::prelude::*;

use crate::chars::{dec_nat, push_dec_u64};
use crate::color::Color;
use crate::conf::{config_model, ConfValue};
use crate::gitinfo::{gather_git_info, GitInfo, GitInfoV};
use crate::options::{spec_read_options, read_options};
use crate::render::{spec_format_for_module, format_for_module, Shell};
use crate::utils::{
    spec_default_format_result, FormatResult, FormatResultV, ModuleError,
};

verus! {

/// The status text of a snapshot: the branch name (or nothing), then
/// ` +` when any file differs between working tree and index, then
/// ` ⇡N` and ` ⇣N` for nonzero ahead/behind counts, each part absent
/// when its data is.
pub open spec fn spec_git_status_text(info: GitInfoV) -> Seq<char> {
    (match info.branch {
        Some(b) => b,
        None => Seq::empty(),
    }) + (match info.stats {
        Some(s) => if s.files_changed > 0 {
            " +"@
        } else {
            Seq::empty()
        },
        None => Seq::empty(),
    }) + (match info.ahead_behind {
        Some(ab) => (if ab.ahead > 0 {
            " ⇡"@ + dec_nat(ab.ahead as nat)
        } else {
            Seq::empty()
        }) + (if ab.behind > 0 {
            " ⇣"@ + dec_nat(ab.behind as nat)
        } else {
            Seq::empty()
        }),
        None => Seq::empty(),
    })
}

/// Builds the status text of a snapshot.
pub fn git_status_text(info: &GitInfo) -> (r: String)
    ensures
        r@ == spec_git_status_text(info@),
{
    let mut out = String::new();
    let ghost base0 = out@;
    match &info.branch {
        Some(b) => out.append(b.as_str()),
        None => (),
    }
    proof {
        assert(out@ =~= match info@.branch {
            Some(b) => b,
            None => Seq::<char>::empty(),
        });
    }
    let ghost part1 = out@;
    match &info.stats {
        Some(s) => {
            if s.files_changed > 0 {
                out.append(" +");
            }
        },
        None => (),
    }
    proof {
        assert(out@ =~= part1 + (match info@.stats {
            Some(s) => if s.files_changed > 0 {
                " +"@
            } else {
                Seq::<char>::empty()
            },
            None => Seq::<char>::empty(),
        }));
    }
    let ghost part2 = out@;
    match &info.ahead_behind {
        Some(ab) => {
            let ghost mid = out@;
            if ab.ahead > 0 {
                out.append(" ⇡");
                push_dec_u64(&mut out, ab.ahead as u64);
            }
            proof {
                assert(out@ =~= mid + (if ab.ahead > 0 {
                    " ⇡"@ + dec_nat(ab.ahead as nat)
                } else {
                    Seq::<char>::empty()
                }));
            }
            if ab.behind > 0 {
                out.append(" ⇣");
                push_dec_u64(&mut out, ab.behind as u64);
            }
            proof {
                assert(out@ =~= part2 + ((if ab.ahead > 0 {
                    " ⇡"@ + dec_nat(ab.ahead as nat)
                } else {
                    Seq::<char>::empty()
                }) + (if ab.behind > 0 {
                    " ⇣"@ + dec_nat(ab.behind as nat)
                } else {
                    Seq::<char>::empty()
                })));
            }
        },
        None => (),
    }
    proof {
        assert(out@ =~= spec_git_status_text(info@));
    }
    out
}

/// What the git segment yields for a given snapshot: absent (no
/// content, no style, no separator — and no error) when there is no
/// snapshot or the status text is empty; the status text rendered with
/// the segment's options otherwise. Only configuration errors
/// propagate.
pub open spec fn spec_format_git_info(
    m: Map<Seq<char>, ConfValue>,
    info: Option<GitInfoV>,
    next_bg: Option<Color>,
    shell: Shell,
) -> Result<FormatResultV, ModuleError> {
    let opts = spec_read_options(m, "git"@);
    if opts is Err {
        Err(opts->Err_0)
    } else {
        match info {
            None => Ok(spec_default_format_result()),
            Some(gi) => if spec_git_status_text(gi).len() == 0 {
                Ok(spec_default_format_result())
            } else {
                match spec_format_for_module(spec_git_status_text(gi), opts->Ok_0, next_bg, shell) {
                    Ok(o) => Ok(
                        FormatResultV { output: Some(o), next_bg: opts->Ok_0.style.background },
                    ),
                    Err(e) => Err(e),
                }
            },
        }
    }
}

/// Renders the git segment from an already-taken snapshot.
pub fn format_git_info(
    c: &config::Config,
    info: Option<&GitInfo>,
    next_bg: Option<Color>,
    shell: Shell,
) -> (r: Result<FormatResult, ModuleError>)
    ensures
        ({
            let s = spec_format_git_info(
                config_model(c),
                match info {
                    Some(gi) => Some(gi@),
                    None => None,
                },
                next_bg,
                shell,
            );
            match r {
                Ok(o) => s == Ok::<FormatResultV, ModuleError>(o@),
                Err(e) => s == Err::<FormatResultV, ModuleError>(e),
            }
        }),
{
    let options = read_options("git", c)?;
    match info {
        None => Ok(FormatResult::default()),
        Some(gi) => {
            let text = git_status_text(gi);
            if text.as_str().unicode_len() == 0 {
                Ok(FormatResult::default())
            } else {
                match format_for_module(text.as_str(), &options, next_bg, shell) {
                    Ok(o) => Ok(
                        FormatResult { output: Some(o), next_bg: options.style.background },
                    ),
                    Err(e) => Err(e),
                }
            }
        },
    }
}

/// Finds and formats information about the repository enclosing
/// `path`, if any.
///
/// Errors while reading the configuration propagate; everything the
/// repository queries yield is environmental, so this function promises
/// only that its result is the rendering of *some* snapshot (possibly
/// none at all) under `spec_format_git_info` — outside any repository
/// the result is entirely absent, without raising an error.
pub fn format_git(c: &config::Config, path: &str, next_bg: Option<Color>, shell: Shell) -> (r:
    Result<FormatResult, ModuleError>)
    ensures
        exists|info: Option<GitInfoV>|
            {
                let s = #[trigger] spec_format_git_info(config_model(c), info, next_bg, shell);
                match r {
                    Ok(o) => s == Ok::<FormatResultV, ModuleError>(o@),
                    Err(e) => s == Err::<FormatResultV, ModuleError>(e),
                }
            },
        spec_read_options(config_model(c), "git"@) matches Err(e) ==> r == Err::<
            FormatResult,
            ModuleError,
        >(e),
{
    let info = gather_git_info(path);
    let r = match &info {
        Some(gi) => format_git_info(c, Some(gi), next_bg, shell),
        None => format_git_info(c, None, next_bg, shell),
    };
    proof {
        let w: Option<GitInfoV> = match info {
            Some(gi) => Some(gi@),
            None => None,
        };
        assert({
            let s = spec_format_git_info(config_model(c), w, next_bg, shell);
            match r {
                Ok(o) => s == Ok::<FormatResultV, ModuleError>(o@),
                Err(e) => s == Err::<FormatResultV, ModuleError>(e),
            }
        });
    }
    r
}

} // verus!
