use debcontrol_archive::archive::ArchiveEntry;
use debcontrol_archive::config::{Asset, PackageConfig};
use debcontrol_archive::scripts::{Error, ScriptName, ScriptSet};
use debcontrol_archive::generate_archive;

fn base_config() -> PackageConfig {
    PackageConfig {
        deb_name: "foo".to_string(),
        deb_version: "1.0".to_string(),
        architecture: "amd64".to_string(),
        repository: None,
        homepage: None,
        documentation: None,
        section: None,
        priority: "optional".to_string(),
        maintainer: "A <a@b.c>".to_string(),
        depends: "libc6".to_string(),
        build_depends: None,
        conflicts: None,
        breaks: None,
        replaces: None,
        provides: None,
        description: "a tiny tool".to_string(),
        extended_description: None,
        assets: vec![],
        conf_files: None,
        maintainer_scripts: None,
        systemd_units: None,
        triggers_file: None,
    }
}

fn member<'a>(entries: &'a [ArchiveEntry], name: &str) -> &'a ArchiveEntry {
    entries
        .iter()
        .find(|e| e.name == name)
        .unwrap_or_else(|| panic!("no member named {}", name))
}

fn has_member(entries: &[ArchiveEntry], name: &str) -> bool {
    entries.iter().any(|e| e.name == name)
}

#[test]
fn control_field_order_and_values() {
    let mut cfg = base_config();
    cfg.assets = vec![
        Asset {
            target_path: "usr/bin/foo".to_string(),
            source_size: 1500,
            content_digest: Some(vec![0u8; 16]),
        },
        Asset {
            target_path: "usr/share/doc/foo".to_string(),
            source_size: 548,
            content_digest: None,
        },
    ];
    let entries = generate_archive(&cfg, 100).unwrap();
    let control = member(&entries, "./control");
    let text = String::from_utf8(control.data.clone()).unwrap();
    let expected = "Package: foo\nVersion: 1.0\nArchitecture: amd64\nPriority: optional\n\
        Standards-Version: 3.9.4\nMaintainer: A <a@b.c>\nInstalled-Size: 2\n\
        Depends: libc6\nDescription: a tiny tool\n\n";
    assert_eq!(text, expected);
}

#[test]
fn control_optional_fields_and_vcs() {
    let mut cfg = base_config();
    cfg.repository = Some("https://github.com/example/foo".to_string());
    cfg.homepage = None;
    cfg.documentation = Some("https://docs.example".to_string());
    cfg.section = Some("utils".to_string());
    cfg.build_depends = Some("gcc".to_string());
    cfg.conflicts = Some("bar".to_string());
    cfg.breaks = Some("baz".to_string());
    cfg.replaces = Some("qux".to_string());
    cfg.provides = Some("foo-tool".to_string());
    let entries = generate_archive(&cfg, 7).unwrap();
    let text = String::from_utf8(member(&entries, "./control").data.clone()).unwrap();
    let expected = "Package: foo\nVersion: 1.0\nArchitecture: amd64\n\
        Vcs-Browser: https://github.com/example/foo\n\
        Vcs-Git: https://github.com/example/foo\n\
        Homepage: https://docs.example\nSection: utils\nPriority: optional\n\
        Standards-Version: 3.9.4\nMaintainer: A <a@b.c>\nInstalled-Size: 0\n\
        Depends: libc6\nBuild-Depends: gcc\nConflicts: bar\nBreaks: baz\n\
        Replaces: qux\nProvides: foo-tool\nDescription: a tiny tool\n\n";
    assert_eq!(text, expected);
}

#[test]
fn control_text_is_utf8_encoded() {
    let mut cfg = base_config();
    cfg.maintainer = "\u{c6}rlig <a@b.c>".to_string();
    let entries = generate_archive(&cfg, 0).unwrap();
    let control = member(&entries, "./control");
    let text = String::from_utf8(control.data.clone()).unwrap();
    assert!(text.contains("Maintainer: \u{c6}rlig <a@b.c>\n"));
}

#[test]
fn md5sums_lines_and_symlink_skipped() {
    let mut cfg = base_config();
    let digest = md5::compute(b"hello world");
    cfg.assets = vec![
        Asset {
            target_path: "usr/bin/foo".to_string(),
            source_size: 11,
            content_digest: Some(digest.0.to_vec()),
        },
        Asset {
            target_path: "usr/bin/foo-link".to_string(),
            source_size: 0,
            content_digest: None,
        },
    ];
    let entries = generate_archive(&cfg, 3).unwrap();
    let md5sums = member(&entries, "./md5sums");
    let text = String::from_utf8(md5sums.data.clone()).unwrap();
    assert_eq!(text, "5eb63bbbe01eeed093cb22bb8f5acdc3  usr/bin/foo\n");
}

#[test]
fn conffiles_verbatim_with_one_newline() {
    let mut cfg = base_config();
    cfg.conf_files = Some("/etc/foo.conf".to_string());
    let entries = generate_archive(&cfg, 3).unwrap();
    let conf = member(&entries, "./conffiles");
    assert_eq!(conf.data, b"/etc/foo.conf\n".to_vec());
    assert_eq!(conf.mode, 0o644);
}

#[test]
fn no_conffiles_member_when_unconfigured() {
    let cfg = base_config();
    let entries = generate_archive(&cfg, 3).unwrap();
    assert!(!has_member(&entries, "./conffiles"));
}

#[test]
fn reproducible_archives() {
    let mut cfg = base_config();
    cfg.assets = vec![Asset {
        target_path: "usr/bin/foo".to_string(),
        source_size: 2048,
        content_digest: Some(md5::compute(b"abc").0.to_vec()),
    }];
    cfg.conf_files = Some("/etc/foo.conf".to_string());
    let a = generate_archive(&cfg, 42).unwrap();
    let b = generate_archive(&cfg, 42).unwrap();
    assert_eq!(a.len(), b.len());
    for (x, y) in a.iter().zip(b.iter()) {
        assert_eq!(x.name, y.name);
        assert_eq!(x.data, y.data);
        assert_eq!(x.mode, y.mode);
        assert_eq!(x.mtime, y.mtime);
    }
}

#[test]
fn member_order_modes_and_timestamps() {
    let mut cfg = base_config();
    cfg.conf_files = Some("/etc/foo.conf".to_string());
    let mut user = ScriptSet::empty();
    user.postinst = Some(b"#!/bin/sh\nexit 0\n".to_vec());
    cfg.maintainer_scripts = Some(user);
    cfg.triggers_file = Some(b"interest /usr/share/foo\n".to_vec());
    let entries = generate_archive(&cfg, 99).unwrap();
    let names: Vec<&str> = entries.iter().map(|e| e.name.as_str()).collect();
    assert_eq!(
        names,
        vec!["./md5sums", "./control", "./conffiles", "postinst", "./triggers"]
    );
    for e in &entries {
        assert_eq!(e.mtime, 99);
        if e.name == "postinst" {
            assert_eq!(e.mode, 0o755);
        } else {
            assert_eq!(e.mode, 0o644);
        }
    }
}

#[test]
fn workspace_postinst_wins_over_user_copy() {
    let mut cfg = base_config();
    let mut user = ScriptSet::empty();
    user.postinst = Some(b"#!/bin/sh\n#DEBHELPER#\nexit 0\n".to_vec());
    let mut fragments = ScriptSet::empty();
    fragments.postinst = Some(b"systemctl enable foo\n".to_vec());
    cfg.maintainer_scripts = Some(user);
    cfg.systemd_units = Some(fragments);
    let entries = generate_archive(&cfg, 1).unwrap();
    let postinst = member(&entries, "postinst");
    assert_eq!(
        postinst.data,
        b"#!/bin/sh\nsystemctl enable foo\n\nexit 0\n".to_vec()
    );
}

#[test]
fn postinst_synthesized_from_template_when_user_has_none() {
    let mut cfg = base_config();
    cfg.maintainer_scripts = Some(ScriptSet::empty());
    let mut fragments = ScriptSet::empty();
    fragments.postinst = Some(b"systemctl start foo\n".to_vec());
    cfg.systemd_units = Some(fragments);
    let entries = generate_archive(&cfg, 1).unwrap();
    let postinst = member(&entries, "postinst");
    assert_eq!(
        postinst.data,
        b"#!/bin/sh\nset -e\nsystemctl start foo\n\n".to_vec()
    );
}

#[test]
fn user_scripts_archived_without_systemd() {
    let mut cfg = base_config();
    let mut user = ScriptSet::empty();
    user.preinst = Some(b"#!/bin/sh\necho pre\n".to_vec());
    user.templates = Some(b"Template: foo/title\n".to_vec());
    cfg.maintainer_scripts = Some(user);
    let entries = generate_archive(&cfg, 1).unwrap();
    assert_eq!(member(&entries, "preinst").data, b"#!/bin/sh\necho pre\n".to_vec());
    assert_eq!(member(&entries, "templates").data, b"Template: foo/title\n".to_vec());
    assert!(!has_member(&entries, "postinst"));
    assert!(!has_member(&entries, "prerm"));
}

#[test]
fn missing_token_aborts_whole_assembly() {
    let mut cfg = base_config();
    let mut user = ScriptSet::empty();
    user.postinst = Some(b"#!/bin/sh\nexit 0\n".to_vec());
    let mut fragments = ScriptSet::empty();
    fragments.postinst = Some(b"systemctl enable foo\n".to_vec());
    cfg.maintainer_scripts = Some(user);
    cfg.systemd_units = Some(fragments);
    let r = generate_archive(&cfg, 1);
    assert_eq!(
        r.err().unwrap(),
        Error::MissingDebhelperToken { script: ScriptName::Postinst }
    );
}

#[test]
fn error_description_names_the_script() {
    let e = Error::MissingDebhelperToken { script: ScriptName::Postinst };
    assert_eq!(
        e.describe(),
        "maintainer script postinst lacks the #DEBHELPER# token"
    );
}

#[test]
fn no_triggers_member_when_unconfigured() {
    let cfg = base_config();
    let entries = generate_archive(&cfg, 5).unwrap();
    assert!(!has_member(&entries, "./triggers"));
}

#[test]
fn triggers_content_copied_verbatim() {
    let mut cfg = base_config();
    cfg.triggers_file = Some(b"activate foo\n".to_vec());
    let entries = generate_archive(&cfg, 5).unwrap();
    assert_eq!(member(&entries, "./triggers").data, b"activate foo\n".to_vec());
}
