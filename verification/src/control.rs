use vstd::prelude::*;

use crate::archive::{has_name, ControlArchive, EntryView, MODE_META};
use crate::config::{
    opt_str_view, repository_type, spec_repository_type, sum_asset_sizes, sum_sizes,
    ConfigView, PackageConfig,
};
use crate::numfmt::{dec_chars, u64_to_dec};
use crate::strutil::{spec_starts_with, starts_with};
use crate::wordwrap::{split_by_chars, split_words, wrap_words};
use vstd::utf8::encode_utf8;

verus! {

/// The wrap width of description lines, in characters.
pub const DESCRIPTION_WIDTH: usize = 79;

pub open spec fn nl() -> Seq<char> {
    seq!['\n']
}

/// One `Key: value` line for a present optional field, nothing for an
/// absent one.
pub open spec fn opt_line(key: Seq<char>, v: Option<Seq<char>>) -> Seq<char> {
    match v {
        Some(x) => key + x + nl(),
        None => seq![],
    }
}

/// The version-control lines of a declared repository: a browser line for a
/// URL served over http, and a kind-tagged line when the URL's kind is
/// recognized.
pub open spec fn vcs_lines(repo: Option<Seq<char>>) -> Seq<char> {
    match repo {
        None => seq![],
        Some(r) => (if spec_starts_with(r, "http"@) {
            "Vcs-Browser: "@ + r + nl()
        } else {
            seq![]
        }) + (match spec_repository_type(r) {
            Some(k) => "Vcs-"@ + k.spec_str() + ": "@ + r + nl(),
            None => seq![],
        }),
    }
}

/// The homepage line: the configured homepage, falling back to the
/// documentation URL, or nothing when both are absent.
pub open spec fn homepage_line(
    homepage: Option<Seq<char>>,
    documentation: Option<Seq<char>>,
) -> Seq<char> {
    match homepage {
        Some(h) => "Homepage: "@ + h + nl(),
        None => opt_line("Homepage: "@, documentation),
    }
}

/// Wrapped description lines, each prefixed by one space and newline
/// terminated.
pub open spec fn desc_lines_of(lines: Seq<Seq<char>>) -> Seq<char>
    decreases lines.len(),
{
    if lines.len() == 0 {
        seq![]
    } else {
        seq![' '] + lines[0] + nl() + desc_lines_of(lines.drop_first())
    }
}

/// The wrapped rendering of one description text.
pub open spec fn wrapped_desc(d: Seq<char>) -> Seq<char> {
    desc_lines_of(wrap_words(split_words(d), DESCRIPTION_WIDTH as int))
}

/// The whole control-field text, in the fixed field order, ending in one
/// blank line.
pub open spec fn control_chars(cfg: ConfigView) -> Seq<char> {
    "Package: "@ + cfg.deb_name + nl() + "Version: "@ + cfg.deb_version + nl()
        + "Architecture: "@ + cfg.architecture + nl() + vcs_lines(cfg.repository)
        + homepage_line(cfg.homepage, cfg.documentation) + opt_line("Section: "@, cfg.section)
        + "Priority: "@ + cfg.priority + nl() + "Standards-Version: 3.9.4"@ + nl()
        + "Maintainer: "@ + cfg.maintainer + nl() + "Installed-Size: "@ + dec_chars(
        sum_sizes(cfg.assets) / 1024,
    ) + nl() + "Depends: "@ + cfg.depends + nl() + opt_line(
        "Build-Depends: "@,
        cfg.build_depends,
    ) + opt_line("Conflicts: "@, cfg.conflicts) + opt_line("Breaks: "@, cfg.breaks)
        + opt_line("Replaces: "@, cfg.replaces) + opt_line("Provides: "@, cfg.provides)
        + "Description:"@ + wrapped_desc(cfg.description) + (match cfg.extended_description {
        Some(e) => wrapped_desc(e),
        None => seq![],
    }) + nl()
}

fn append_line(c: &mut String, key: &str, value: &str)
    ensures
        final(c)@ == old(c)@ + key@ + value@ + nl(),
{
    proof {
        reveal_strlit("\n");
    }
    c.append(key);
    c.append(value);
    c.append("\n");
    assert(c@ =~= old(c)@ + key@ + value@ + nl());
}

fn append_opt_line(c: &mut String, key: &str, v: &Option<String>)
    ensures
        final(c)@ == old(c)@ + opt_line(key@, opt_str_view(*v)),
{
    match v {
        Some(x) => {
            append_line(c, key, x.as_str());
        },
        None => {
            assert(c@ =~= old(c)@ + opt_line(key@, opt_str_view(*v)));
        },
    }
}

proof fn lemma_desc_lines_push(ls: Seq<Seq<char>>, x: Seq<char>)
    ensures
        desc_lines_of(ls.push(x)) == desc_lines_of(ls) + (seq![' '] + x + nl()),
    decreases ls.len(),
{
    if ls.len() == 0 {
        assert(ls.push(x)[0] == x);
        assert(ls.push(x).drop_first() =~= Seq::<Seq<char>>::empty());
        assert(desc_lines_of(Seq::<Seq<char>>::empty()) =~= Seq::<char>::empty());
        assert(desc_lines_of(ls.push(x)) =~= desc_lines_of(ls) + (seq![' '] + x + nl()));
    } else {
        lemma_desc_lines_push(ls.drop_first(), x);
        assert(ls.push(x).drop_first() =~= ls.drop_first().push(x));
        assert(ls.push(x)[0] == ls[0]);
        assert(desc_lines_of(ls.push(x)) =~= desc_lines_of(ls) + (seq![' '] + x + nl()));
    }
}

fn append_wrapped_desc(c: &mut String, d: &str)
    ensures
        final(c)@ == old(c)@ + wrapped_desc(d@),
{
    let lines = split_by_chars(d, DESCRIPTION_WIDTH);
    let ghost lv = lines@.map_values(|l: String| l@);
    proof {
        reveal_strlit(" ");
        reveal_strlit("\n");
        assert(" "@ =~= seq![' ']);
        assert(lv.subrange(0, 0) =~= Seq::<Seq<char>>::empty());
    }
    let mut i: usize = 0;
    while i < lines.len()
        invariant
            lv == lines@.map_values(|l: String| l@),
            0 <= i <= lines@.len(),
            c@ == old(c)@ + desc_lines_of(lv.subrange(0, i as int)),
        decreases lines@.len() - i,
    {
        proof {
            reveal_strlit(" ");
            reveal_strlit("\n");
        }
        c.append(" ");
        c.append(lines[i].as_str());
        c.append("\n");
        proof {
            assert(" "@ =~= seq![' ']);
            lemma_desc_lines_push(lv.subrange(0, i as int), lv[i as int]);
            assert(lv.subrange(0, i + 1) =~= lv.subrange(0, i as int).push(lv[i as int]));
            assert(c@ =~= old(c)@ + desc_lines_of(lv.subrange(0, i + 1)));
        }
        i += 1;
    }
    proof {
        assert(lv.subrange(0, lv.len() as int) =~= lv);
    }
}

/// Renders the control-field text and appends it as `./control`.
#[verifier::rlimit(100)]
pub fn generate_control(archive: &mut ControlArchive, options: &PackageConfig)
    requires
        old(archive).wf(),
        !has_name(old(archive)@, "./control"@),
        sum_sizes(options@.assets) <= u64::MAX as int,
    ensures
        final(archive)@ == old(archive)@.push(
            EntryView {
                name: "./control"@,
                data: encode_utf8(control_chars(options@)),
                mode: MODE_META,
                mtime: old(archive).timestamp(),
            },
        ),
        final(archive).timestamp() == old(archive).timestamp(),
        final(archive).wf(),
{
    let mut c = String::new();
    append_line(&mut c, "Package: ", options.deb_name.as_str());
    append_line(&mut c, "Version: ", options.deb_version.as_str());
    append_line(&mut c, "Architecture: ", options.architecture.as_str());
    let ghost c_arch = c@;
    match &options.repository {
        Some(repo) => {
            let ghost c0 = c@;
            if starts_with(repo.as_str(), "http") {
                append_line(&mut c, "Vcs-Browser: ", repo.as_str());
            }
            let ghost c1 = c@;
            match repository_type(repo.as_str()) {
                Some(kind) => {
                    proof {
                        reveal_strlit("\n");
                    }
                    c.append("Vcs-");
                    c.append(kind.as_str());
                    c.append(": ");
                    c.append(repo.as_str());
                    c.append("\n");
                    assert(c@ =~= c1 + ("Vcs-"@ + kind.spec_str() + ": "@ + repo@ + nl()));
                },
                None => {},
            }
            assert(c@ =~= c_arch + vcs_lines(options@.repository));
        },
        None => {
            assert(c@ =~= c_arch + vcs_lines(options@.repository));
        },
    }
    let ghost c_vcs = c@;
    match &options.homepage {
        Some(h) => {
            append_line(&mut c, "Homepage: ", h.as_str());
        },
        None => {
            append_opt_line(&mut c, "Homepage: ", &options.documentation);
        },
    }
    assert(c@ =~= c_vcs + homepage_line(options@.homepage, options@.documentation));
    append_opt_line(&mut c, "Section: ", &options.section);
    append_line(&mut c, "Priority: ", options.priority.as_str());
    append_line(&mut c, "Standards-Version: 3.9.4", "");
    proof {
        reveal_strlit("");
        assert(""@ =~= Seq::<char>::empty());
    }
    append_line(&mut c, "Maintainer: ", options.maintainer.as_str());
    let installed_size = sum_asset_sizes(&options.assets) / 1024;
    let size_str = u64_to_dec(installed_size);
    append_line(&mut c, "Installed-Size: ", size_str.as_str());
    append_line(&mut c, "Depends: ", options.depends.as_str());
    append_opt_line(&mut c, "Build-Depends: ", &options.build_depends);
    append_opt_line(&mut c, "Conflicts: ", &options.conflicts);
    append_opt_line(&mut c, "Breaks: ", &options.breaks);
    append_opt_line(&mut c, "Replaces: ", &options.replaces);
    append_opt_line(&mut c, "Provides: ", &options.provides);
    c.append("Description:");
    append_wrapped_desc(&mut c, options.description.as_str());
    match &options.extended_description {
        Some(e) => {
            append_wrapped_desc(&mut c, e.as_str());
        },
        None => {},
    }
    proof {
        reveal_strlit("\n");
        reveal_strlit("");
        assert(""@ =~= Seq::<char>::empty());
    }
    c.append("\n");
    assert(c@ =~= control_chars(options@));
    let data = c.as_str().as_bytes_vec();
    archive.file("./control", data, MODE_META);
}

} // verus!
