//! Assembly of the control metadata member set of a Debian-style binary
//! package: the control-field text, the md5 integrity manifest, optional
//! conffiles and triggers declarations, and the maintainer lifecycle
//! scripts, merged with generated systemd shell fragments.

pub mod archive;
pub mod byteutil;
pub mod config;
pub mod control;
pub mod hexfmt;
pub mod members;
pub mod numfmt;
pub mod scripts;
pub mod strutil;
pub mod wordwrap;

use vstd::prelude::*;

use crate::archive::{entries_wf, has_name, ArchiveEntry, ControlArchive, EntryView, MODE_META};
use crate::byteutil::{bytes_contain, spec_replace_first};
use crate::config::{sum_sizes, ConfigView, PackageConfig};
use crate::control::control_chars;
use crate::members::{conf_files_bytes, md5sums_bytes};
use crate::scripts::{
    lemma_scripts_entries_no_name, marker, spec_merged, spec_resolve, spec_scripts_entries,
    Error, ScriptName, ScriptSetView,
};
use vstd::utf8::encode_utf8;

verus! {

/// The conffiles member, where one is configured.
pub open spec fn conf_entries(cfg: ConfigView, time: u64) -> Seq<EntryView> {
    match cfg.conf_files {
        Some(f) => seq![
            EntryView {
                name: "./conffiles"@,
                data: conf_files_bytes(f),
                mode: MODE_META,
                mtime: time,
            },
        ],
        None => seq![],
    }
}

/// The triggers member, where a readable triggers file is configured.
pub open spec fn trigger_entries(cfg: ConfigView, time: u64) -> Seq<EntryView> {
    match cfg.triggers_file {
        Some(c) => seq![
            EntryView { name: "./triggers"@, data: c, mode: MODE_META, mtime: time },
        ],
        None => seq![],
    }
}

/// The whole archive one build assembles — integrity manifest, control
/// fields, optional conffiles, maintainer scripts, optional triggers, in
/// that order — or the fault that aborts it before any member is handed
/// out.
pub open spec fn spec_generate_archive(cfg: ConfigView, time: u64) -> Result<
    Seq<EntryView>,
    Error,
> {
    match spec_scripts_entries(cfg.maintainer_scripts, cfg.systemd_units, time) {
        Err(e) => Err(e),
        Ok(ss) => Ok(
            seq![
                EntryView {
                    name: "./md5sums"@,
                    data: md5sums_bytes(cfg.assets),
                    mode: MODE_META,
                    mtime: time,
                },
                EntryView {
                    name: "./control"@,
                    data: encode_utf8(control_chars(cfg)),
                    mode: MODE_META,
                    mtime: time,
                },
            ] + conf_entries(cfg, time) + ss + trigger_entries(cfg, time),
        ),
    }
}

proof fn lemma_member_names_distinct()
    ensures
        forall|n: ScriptName|
            #![trigger n.spec_str()]
            n.spec_str() != "./md5sums"@ && n.spec_str() != "./control"@ && n.spec_str()
                != "./conffiles"@ && n.spec_str() != "./triggers"@,
        "./md5sums"@ != "./control"@,
        "./conffiles"@ != "./md5sums"@ && "./conffiles"@ != "./control"@,
        "./triggers"@ != "./md5sums"@ && "./triggers"@ != "./control"@ && "./triggers"@
            != "./conffiles"@,
{
    reveal_strlit("config");
    reveal_strlit("preinst");
    reveal_strlit("postinst");
    reveal_strlit("prerm");
    reveal_strlit("postrm");
    reveal_strlit("templates");
    reveal_strlit("./md5sums");
    reveal_strlit("./control");
    reveal_strlit("./conffiles");
    reveal_strlit("./triggers");
    assert("./md5sums"@[2] == 'm' && "./control"@[2] == 'c');
    assert("./md5sums"@.len() == 9 && "./control"@.len() == 9 && "./conffiles"@.len() == 11
        && "./triggers"@.len() == 10);
    assert forall|n: ScriptName|
        #![trigger n.spec_str()]
        n.spec_str() != "./md5sums"@ && n.spec_str() != "./control"@ && n.spec_str()
            != "./conffiles"@ && n.spec_str() != "./triggers"@ by {
        assert("config"@.len() == 6 && "preinst"@.len() == 7 && "postinst"@.len() == 8
            && "prerm"@.len() == 5 && "postrm"@.len() == 6 && "templates"@.len() == 9);
        assert("./md5sums"@.len() == 9 && "./control"@.len() == 9 && "./conffiles"@.len()
            == 11 && "./triggers"@.len() == 10);
        assert("templates"@[0] == 't' && "./md5sums"@[0] == '.' && "./control"@[0] == '.');
    }
}

/// Assembles the whole control archive for one build: the integrity
/// manifest, the control fields, the optional conffiles declaration, the
/// maintainer scripts with systemd fragments merged in, and the optional
/// triggers content, every member stamped with the caller's timestamp. The
/// first fault aborts the assembly: no member list is handed out.
#[verifier::rlimit(100)]
pub fn generate_archive(options: &PackageConfig, time: u64) -> (r: Result<
    Vec<ArchiveEntry>,
    Error,
>)
    requires
        sum_sizes(options@.assets) <= u64::MAX as int,
    ensures
        match r {
            Ok(es) => spec_generate_archive(options@, time) == Ok::<Seq<EntryView>, Error>(
                es@.map_values(|e: ArchiveEntry| e@),
            ) && entries_wf(es@.map_values(|e: ArchiveEntry| e@), time),
            Err(e) => spec_generate_archive(options@, time) == Err::<Seq<EntryView>, Error>(
                e,
            ),
        },
{
    proof {
        lemma_member_names_distinct();
    }
    let mut archive = ControlArchive::new(time);
    members::generate_md5sums(&mut archive, options);
    let ghost e_md5 = EntryView {
        name: "./md5sums"@,
        data: md5sums_bytes(options@.assets),
        mode: MODE_META,
        mtime: time,
    };
    control::generate_control(&mut archive, options);
    let ghost e_ctl = EntryView {
        name: "./control"@,
        data: encode_utf8(control_chars(options@)),
        mode: MODE_META,
        mtime: time,
    };
    match &options.conf_files {
        Some(files) => {
            members::generate_conf_files(&mut archive, files.as_str());
        },
        None => {},
    }
    proof {
        assert(archive@ =~= seq![e_md5, e_ctl] + conf_entries(options@, time));
    }
    let ghost pre_scripts = archive@;
    match scripts::generate_scripts(
        &mut archive,
        &options.maintainer_scripts,
        &options.systemd_units,
    ) {
        Ok(_) => {},
        Err(e) => {
            return Err(e);
        },
    }
    let ghost ss = match spec_scripts_entries(
        options@.maintainer_scripts,
        options@.systemd_units,
        time,
    ) {
        Ok(s) => s,
        Err(_) => seq![],
    };
    proof {
        assert(archive@ == pre_scripts + ss);
        lemma_scripts_entries_no_name(
            options@.maintainer_scripts,
            options@.systemd_units,
            time,
            "./triggers"@,
        );
    }
    match &options.triggers_file {
        Some(content) => {
            proof {
                if has_name(archive@, "./triggers"@) {
                    let i = choose|i: int|
                        0 <= i < archive@.len() && archive@[i].name == "./triggers"@;
                    if i < pre_scripts.len() {
                        assert(archive@[i] == pre_scripts[i]);
                    } else {
                        assert(archive@[i] == ss[i - pre_scripts.len()]);
                    }
                }
            }
            members::generate_triggers_file(&mut archive, content);
        },
        None => {},
    }
    proof {
        assert(archive@ =~= seq![e_md5, e_ctl] + conf_entries(options@, time) + ss
            + trigger_entries(options@, time));
    }
    let entries = archive.into_entries();
    Ok(entries)
}

/// Reproducibility: two builds from the same configuration and timestamp
/// assemble the same archive, member for member and byte for byte.
pub proof fn lemma_reproducible(c1: ConfigView, c2: ConfigView, t1: u64, t2: u64)
    requires
        c1 == c2,
        t1 == t2,
    ensures
        spec_generate_archive(c1, t1) == spec_generate_archive(c2, t2),
{
}

/// Workspace precedence: when systemd integration contributes a fragment
/// for a script the user also supplies, the merged workspace version — the
/// user script with the placeholder replaced — is what resolution yields,
/// not the user's original.
pub proof fn lemma_workspace_precedence(
    user: ScriptSetView,
    fr: ScriptSetView,
    n: ScriptName,
)
    requires
        user.get(n) is Some,
        fr.get(n) is Some,
    ensures
        spec_merged(user, fr).get(n) == Some(
            spec_replace_first(user.get(n).unwrap(), marker(), fr.get(n).unwrap()),
        ),
        spec_resolve(seq![spec_merged(user, fr), user], n) == spec_merged(user, fr).get(n),
{
    let ws = spec_merged(user, fr);
    match n {
        ScriptName::Config => {},
        ScriptName::Preinst => {},
        ScriptName::Postinst => {},
        ScriptName::Prerm => {},
        ScriptName::Postrm => {},
        ScriptName::Templates => {},
    }
    assert(seq![ws, user][0] == ws);
}

/// Omitted triggers: with no triggers file configured, no member of the
/// assembled archive is named `./triggers`.
pub proof fn lemma_no_triggers_member(cfg: ConfigView, time: u64)
    requires
        cfg.triggers_file is None,
    ensures
        match spec_generate_archive(cfg, time) {
            Ok(es) => !has_name(es, "./triggers"@),
            Err(_) => true,
        },
{
    lemma_member_names_distinct();
    match spec_scripts_entries(cfg.maintainer_scripts, cfg.systemd_units, time) {
        Err(_) => {},
        Ok(ss) => {
            lemma_scripts_entries_no_name(
                cfg.maintainer_scripts,
                cfg.systemd_units,
                time,
                "./triggers"@,
            );
            let es = seq![
                EntryView {
                    name: "./md5sums"@,
                    data: md5sums_bytes(cfg.assets),
                    mode: MODE_META,
                    mtime: time,
                },
                EntryView {
                    name: "./control"@,
                    data: encode_utf8(control_chars(cfg)),
                    mode: MODE_META,
                    mtime: time,
                },
            ] + conf_entries(cfg, time) + ss + trigger_entries(cfg, time);
            if has_name(es, "./triggers"@) {
                let i = choose|i: int| 0 <= i < es.len() && es[i].name == "./triggers"@;
                let head = 2 + conf_entries(cfg, time).len();
                assert(trigger_entries(cfg, time) =~= Seq::<EntryView>::empty());
                if i < head {
                    if 2 <= i {
                        assert(es[i] == conf_entries(cfg, time)[i - 2]);
                    }
                } else {
                    assert(es[i] == ss[i - head]);
                }
            }
        },
    }
}

/// Atomic abort on a missing placeholder: with systemd integration active,
/// a user script that needs a fragment but lacks the placeholder token
/// makes the whole assembly report a fault, and no member list is produced.
pub proof fn lemma_missing_token_aborts(cfg: ConfigView, time: u64, n: ScriptName)
    requires
        cfg.maintainer_scripts is Some,
        cfg.systemd_units is Some,
        cfg.maintainer_scripts.unwrap().get(n) is Some,
        cfg.systemd_units.unwrap().get(n) is Some,
        !bytes_contain(cfg.maintainer_scripts.unwrap().get(n).unwrap(), marker()),
    ensures
        spec_generate_archive(cfg, time) is Err,
{
    let u = cfg.maintainer_scripts.unwrap();
    let fr = cfg.systemd_units.unwrap();
    assert(!scripts::merge_ok(u.get(n), fr.get(n)));
    assert(!scripts::merge_all_ok(u, fr));
}

} // verus!
