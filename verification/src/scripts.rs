use vstd::prelude::*;

use crate::archive::{has_name, ControlArchive, EntryView, MODE_SCRIPT};
use crate::byteutil::{
    bytes_contain, clone_bytes, contains_bytes, replace_first, spec_replace_first,
};

verus! {

/// The six canonical maintainer script names, in the order the archive
/// assembly considers them.
#[derive(Clone, Copy, PartialEq, Eq, Structural, Debug)]
pub enum ScriptName {
    Config,
    Preinst,
    Postinst,
    Prerm,
    Postrm,
    Templates,
}

impl ScriptName {
    /// The archive member name of this script.
    pub open spec fn spec_str(self) -> Seq<char> {
        match self {
            ScriptName::Config => "config"@,
            ScriptName::Preinst => "preinst"@,
            ScriptName::Postinst => "postinst"@,
            ScriptName::Prerm => "prerm"@,
            ScriptName::Postrm => "postrm"@,
            ScriptName::Templates => "templates"@,
        }
    }

    pub fn as_str(self) -> (r: &'static str)
        ensures
            r@ == self.spec_str(),
    {
        match self {
            ScriptName::Config => "config",
            ScriptName::Preinst => "preinst",
            ScriptName::Postinst => "postinst",
            ScriptName::Prerm => "prerm",
            ScriptName::Postrm => "postrm",
            ScriptName::Templates => "templates",
        }
    }
}

/// The contents of one script directory: for each canonical name, the bytes
/// of the script of that name, where one is present.
pub struct ScriptSet {
    pub config: Option<Vec<u8>>,
    pub preinst: Option<Vec<u8>>,
    pub postinst: Option<Vec<u8>>,
    pub prerm: Option<Vec<u8>>,
    pub postrm: Option<Vec<u8>>,
    pub templates: Option<Vec<u8>>,
}

/// Mathematical image of a script directory.
pub ghost struct ScriptSetView {
    pub config: Option<Seq<u8>>,
    pub preinst: Option<Seq<u8>>,
    pub postinst: Option<Seq<u8>>,
    pub prerm: Option<Seq<u8>>,
    pub postrm: Option<Seq<u8>>,
    pub templates: Option<Seq<u8>>,
}

pub open spec fn opt_bytes(o: Option<Vec<u8>>) -> Option<Seq<u8>> {
    match o {
        Some(v) => Some(v@),
        None => None,
    }
}

impl View for ScriptSet {
    type V = ScriptSetView;

    open spec fn view(&self) -> ScriptSetView {
        ScriptSetView {
            config: opt_bytes(self.config),
            preinst: opt_bytes(self.preinst),
            postinst: opt_bytes(self.postinst),
            prerm: opt_bytes(self.prerm),
            postrm: opt_bytes(self.postrm),
            templates: opt_bytes(self.templates),
        }
    }
}

impl ScriptSetView {
    /// The script of the given name, where one is present.
    pub open spec fn get(self, n: ScriptName) -> Option<Seq<u8>> {
        match n {
            ScriptName::Config => self.config,
            ScriptName::Preinst => self.preinst,
            ScriptName::Postinst => self.postinst,
            ScriptName::Prerm => self.prerm,
            ScriptName::Postrm => self.postrm,
            ScriptName::Templates => self.templates,
        }
    }
}

impl ScriptSet {
    /// A directory with no scripts.
    pub fn empty() -> (r: ScriptSet)
        ensures
            forall|n: ScriptName| r@.get(n) is None,
    {
        ScriptSet {
            config: None,
            preinst: None,
            postinst: None,
            prerm: None,
            postrm: None,
            templates: None,
        }
    }

    pub fn get(&self, n: ScriptName) -> (r: &Option<Vec<u8>>)
        ensures
            opt_bytes(*r) == self@.get(n),
    {
        match n {
            ScriptName::Config => &self.config,
            ScriptName::Preinst => &self.preinst,
            ScriptName::Postinst => &self.postinst,
            ScriptName::Prerm => &self.prerm,
            ScriptName::Postrm => &self.postrm,
            ScriptName::Templates => &self.templates,
        }
    }
}

/// The placeholder token that marks where generated shell fragments are
/// inserted into a user-supplied maintainer script.
pub open spec fn marker() -> Seq<u8> {
    vstd::utf8::encode_utf8("#DEBHELPER#"@)
}

pub fn marker_bytes() -> (r: Vec<u8>)
    ensures
        r@ == marker(),
{
    "#DEBHELPER#".as_bytes_vec()
}

/// The skeleton a maintainer script is synthesized from when the user
/// supplied none of the given name: a minimal shell script whose body is the
/// insertion placeholder.
pub open spec fn default_script_template() -> Seq<u8> {
    vstd::utf8::encode_utf8("#!/bin/sh\nset -e\n#DEBHELPER#\n"@)
}

pub fn default_script_template_bytes() -> (r: Vec<u8>)
    ensures
        r@ == default_script_template(),
{
    "#!/bin/sh\nset -e\n#DEBHELPER#\n".as_bytes_vec()
}

/// The merge of one user script with one generated fragment succeeds unless
/// a fragment must be inserted into a user script that lacks the placeholder.
pub open spec fn merge_ok(user: Option<Seq<u8>>, frag: Option<Seq<u8>>) -> bool {
    match (user, frag) {
        (Some(u), Some(f)) => bytes_contain(u, marker()),
        _ => true,
    }
}

/// The workspace script of one name: the user script with the placeholder
/// replaced by the fragment, a script synthesized from the default template
/// when the user supplied none, and nothing when there is no fragment.
pub open spec fn spec_merge_one(user: Option<Seq<u8>>, frag: Option<Seq<u8>>) -> Option<
    Seq<u8>,
> {
    match frag {
        None => None,
        Some(f) => match user {
            Some(u) => Some(spec_replace_first(u, marker(), f)),
            None => Some(spec_replace_first(default_script_template(), marker(), f)),
        },
    }
}

/// Every per-name merge succeeds.
pub open spec fn merge_all_ok(user: ScriptSetView, fr: ScriptSetView) -> bool {
    forall|n: ScriptName| merge_ok(user.get(n), fr.get(n))
}

/// The first name, in canonical order, whose merge fails.
pub open spec fn first_bad_name(user: ScriptSetView, fr: ScriptSetView) -> ScriptName {
    if !merge_ok(user.config, fr.config) {
        ScriptName::Config
    } else if !merge_ok(user.preinst, fr.preinst) {
        ScriptName::Preinst
    } else if !merge_ok(user.postinst, fr.postinst) {
        ScriptName::Postinst
    } else if !merge_ok(user.prerm, fr.prerm) {
        ScriptName::Prerm
    } else if !merge_ok(user.postrm, fr.postrm) {
        ScriptName::Postrm
    } else {
        ScriptName::Templates
    }
}

/// The whole merged workspace.
pub open spec fn spec_merged(user: ScriptSetView, fr: ScriptSetView) -> ScriptSetView {
    ScriptSetView {
        config: spec_merge_one(user.config, fr.config),
        preinst: spec_merge_one(user.preinst, fr.preinst),
        postinst: spec_merge_one(user.postinst, fr.postinst),
        prerm: spec_merge_one(user.prerm, fr.prerm),
        postrm: spec_merge_one(user.postrm, fr.postrm),
        templates: spec_merge_one(user.templates, fr.templates),
    }
}

/// The faults script assembly can report.
#[derive(Clone, Copy, PartialEq, Eq, Structural, Debug)]
pub enum Error {
    /// A generated fragment had to be inserted into the named user script,
    /// but the script does not hold the placeholder token.
    MissingDebhelperToken { script: ScriptName },
}

impl Error {
    /// A short account of the fault, fit for a report to the caller.
    pub fn describe(&self) -> (r: String)
        ensures
            r@.len() > 0,
    {
        proof {
            reveal_strlit("maintainer script ");
        }
        let mut s = "maintainer script ".to_owned();
        match self {
            Error::MissingDebhelperToken { script } => {
                s.append(script.as_str());
                s.append(" lacks the #DEBHELPER# token");
            },
        }
        s
    }
}

fn merge_one(user: &Option<Vec<u8>>, frag: &Option<Vec<u8>>) -> (r: Result<
    Option<Vec<u8>>,
    (),
>)
    ensures
        match r {
            Ok(o) => merge_ok(opt_bytes(*user), opt_bytes(*frag)) && opt_bytes(o)
                == spec_merge_one(opt_bytes(*user), opt_bytes(*frag)),
            Err(_) => !merge_ok(opt_bytes(*user), opt_bytes(*frag)),
        },
{
    let m = marker_bytes();
    match frag {
        None => Ok(None),
        Some(f) => match user {
            Some(u) => {
                if contains_bytes(u, &m) {
                    Ok(Some(replace_first(u, &m, f)))
                } else {
                    Err(())
                }
            },
            None => {
                let t = default_script_template_bytes();
                Ok(Some(replace_first(&t, &m, f)))
            },
        },
    }
}

/// Builds the workspace script set from the user scripts and the generated
/// fragments, or reports the first user script that lacks the placeholder.
pub fn merge_scripts(user: &ScriptSet, fr: &ScriptSet) -> (r: Result<ScriptSet, Error>)
    ensures
        match r {
            Ok(ws) => merge_all_ok(user@, fr@) && ws@ == spec_merged(user@, fr@),
            Err(e) => !merge_all_ok(user@, fr@) && e == (Error::MissingDebhelperToken {
                script: first_bad_name(user@, fr@),
            }),
        },
{
    let config = match merge_one(&user.config, &fr.config) {
        Ok(v) => v,
        Err(_) => {
            assert(!merge_ok(user@.get(ScriptName::Config), fr@.get(ScriptName::Config)));
            return Err(Error::MissingDebhelperToken { script: ScriptName::Config });
        },
    };
    let preinst = match merge_one(&user.preinst, &fr.preinst) {
        Ok(v) => v,
        Err(_) => {
            assert(!merge_ok(user@.get(ScriptName::Preinst), fr@.get(ScriptName::Preinst)));
            return Err(Error::MissingDebhelperToken { script: ScriptName::Preinst });
        },
    };
    let postinst = match merge_one(&user.postinst, &fr.postinst) {
        Ok(v) => v,
        Err(_) => {
            assert(!merge_ok(
                user@.get(ScriptName::Postinst),
                fr@.get(ScriptName::Postinst),
            ));
            return Err(Error::MissingDebhelperToken { script: ScriptName::Postinst });
        },
    };
    let prerm = match merge_one(&user.prerm, &fr.prerm) {
        Ok(v) => v,
        Err(_) => {
            assert(!merge_ok(user@.get(ScriptName::Prerm), fr@.get(ScriptName::Prerm)));
            return Err(Error::MissingDebhelperToken { script: ScriptName::Prerm });
        },
    };
    let postrm = match merge_one(&user.postrm, &fr.postrm) {
        Ok(v) => v,
        Err(_) => {
            assert(!merge_ok(user@.get(ScriptName::Postrm), fr@.get(ScriptName::Postrm)));
            return Err(Error::MissingDebhelperToken { script: ScriptName::Postrm });
        },
    };
    let templates = match merge_one(&user.templates, &fr.templates) {
        Ok(v) => v,
        Err(_) => {
            assert(!merge_ok(
                user@.get(ScriptName::Templates),
                fr@.get(ScriptName::Templates),
            ));
            return Err(Error::MissingDebhelperToken { script: ScriptName::Templates });
        },
    };
    let ws = ScriptSet { config, preinst, postinst, prerm, postrm, templates };
    proof {
        assert forall|n: ScriptName| merge_ok(user@.get(n), fr@.get(n)) by {
            match n {
                ScriptName::Config => {},
                ScriptName::Preinst => {},
                ScriptName::Postinst => {},
                ScriptName::Prerm => {},
                ScriptName::Postrm => {},
                ScriptName::Templates => {},
            }
        }
    }
    Ok(ws)
}

/// The content a script name resolves to: the first directory of the search
/// path that holds a script of that name wins.
pub open spec fn spec_resolve(dirs: Seq<ScriptSetView>, n: ScriptName) -> Option<Seq<u8>>
    decreases dirs.len(),
{
    if dirs.len() == 0 {
        None
    } else {
        match dirs[0].get(n) {
            Some(c) => Some(c),
            None => spec_resolve(dirs.drop_first(), n),
        }
    }
}

/// Scans the search path in order and takes the first directory that holds a
/// script of the given name.
pub fn find_first<'a>(dirs: &'a Vec<ScriptSet>, n: ScriptName) -> (r: Option<&'a Vec<u8>>)
    ensures
        match r {
            Some(c) => spec_resolve(dirs@.map_values(|d: ScriptSet| d@), n) == Some(c@),
            None => spec_resolve(dirs@.map_values(|d: ScriptSet| d@), n) is None,
        },
{
    let ghost dv = dirs@.map_values(|d: ScriptSet| d@);
    proof {
        assert(dv.skip(0) =~= dv);
    }
    let mut i: usize = 0;
    while i < dirs.len()
        invariant
            0 <= i <= dirs@.len(),
            dv == dirs@.map_values(|d: ScriptSet| d@),
            spec_resolve(dv, n) == spec_resolve(dv.skip(i as int), n),
        decreases dirs@.len() - i,
    {
        proof {
            assert(dv.skip(i as int).len() > 0);
            assert(dv.skip(i as int)[0] == dv[i as int]);
            assert(dv.skip(i as int).drop_first() =~= dv.skip(i + 1));
        }
        match dirs[i].get(n) {
            Some(c) => {
                return Some(c);
            },
            None => {},
        }
        i += 1;
    }
    proof {
        assert(dv.skip(i as int).len() == 0);
    }
    None
}

/// The archive entries the script step contributes, given the search path.
pub open spec fn script_entry(dirs: Seq<ScriptSetView>, n: ScriptName, time: u64) -> Seq<
    EntryView,
> {
    match spec_resolve(dirs, n) {
        Some(c) => seq![
            EntryView { name: n.spec_str(), data: c, mode: MODE_SCRIPT, mtime: time },
        ],
        None => seq![],
    }
}

/// All script entries, in canonical name order.
pub open spec fn script_entries(dirs: Seq<ScriptSetView>, time: u64) -> Seq<EntryView> {
    script_entry(dirs, ScriptName::Config, time) + script_entry(
        dirs,
        ScriptName::Preinst,
        time,
    ) + script_entry(dirs, ScriptName::Postinst, time) + script_entry(
        dirs,
        ScriptName::Prerm,
        time,
    ) + script_entry(dirs, ScriptName::Postrm, time) + script_entry(
        dirs,
        ScriptName::Templates,
        time,
    )
}

fn clone_opt_bytes(o: &Option<Vec<u8>>) -> (r: Option<Vec<u8>>)
    ensures
        opt_bytes(r) == opt_bytes(*o),
{
    match o {
        Some(v) => Some(clone_bytes(v)),
        None => None,
    }
}

/// Copies a script directory.
pub fn clone_script_set(s: &ScriptSet) -> (r: ScriptSet)
    ensures
        r@ == s@,
{
    ScriptSet {
        config: clone_opt_bytes(&s.config),
        preinst: clone_opt_bytes(&s.preinst),
        postinst: clone_opt_bytes(&s.postinst),
        prerm: clone_opt_bytes(&s.prerm),
        postrm: clone_opt_bytes(&s.postrm),
        templates: clone_opt_bytes(&s.templates),
    }
}

fn append_script(archive: &mut ControlArchive, dirs: &Vec<ScriptSet>, n: ScriptName)
    requires
        old(archive).wf(),
        !has_name(old(archive)@, n.spec_str()),
    ensures
        final(archive)@ == old(archive)@ + script_entry(
            dirs@.map_values(|d: ScriptSet| d@),
            n,
            old(archive).timestamp(),
        ),
        final(archive).timestamp() == old(archive).timestamp(),
        final(archive).wf(),
{
    match find_first(dirs, n) {
        Some(content) => {
            let data = clone_bytes(content);
            archive.file(n.as_str(), data, MODE_SCRIPT);
            assert(archive@ =~= old(archive)@ + script_entry(
                dirs@.map_values(|d: ScriptSet| d@),
                n,
                old(archive).timestamp(),
            ));
        },
        None => {
            assert(archive@ =~= old(archive)@ + script_entry(
                dirs@.map_values(|d: ScriptSet| d@),
                n,
                old(archive).timestamp(),
            ));
        },
    }
}

proof fn lemma_has_name_concat(a: Seq<EntryView>, b: Seq<EntryView>, x: Seq<char>)
    ensures
        has_name(a + b, x) == (has_name(a, x) || has_name(b, x)),
{
    if has_name(a + b, x) {
        let i = choose|i: int| 0 <= i < (a + b).len() && (a + b)[i].name == x;
        if i < a.len() {
            assert((a + b)[i] == a[i]);
        } else {
            assert((a + b)[i] == b[i - a.len()]);
        }
    }
    if has_name(a, x) {
        let i = choose|i: int| 0 <= i < a.len() && a[i].name == x;
        assert((a + b)[i] == a[i]);
    }
    if has_name(b, x) {
        let i = choose|i: int| 0 <= i < b.len() && b[i].name == x;
        assert((a + b)[i + a.len()] == b[i]);
    }
}

proof fn lemma_script_entry_names(dirs: Seq<ScriptSetView>, n: ScriptName, time: u64, x: Seq<char>)
    requires
        x != n.spec_str(),
    ensures
        !has_name(script_entry(dirs, n, time), x),
{
}

proof fn lemma_script_names_distinct()
    ensures
        forall|a: ScriptName, b: ScriptName|
            #![trigger a.spec_str(), b.spec_str()]
            a != b ==> a.spec_str() != b.spec_str(),
{
    reveal_strlit("config");
    reveal_strlit("preinst");
    reveal_strlit("postinst");
    reveal_strlit("prerm");
    reveal_strlit("postrm");
    reveal_strlit("templates");
    assert("config"@[0] == 'c' && "postrm"@[0] == 'p');
    assert forall|a: ScriptName, b: ScriptName|
        #![trigger a.spec_str(), b.spec_str()]
        a != b implies a.spec_str() != b.spec_str() by {
        assert("config"@.len() == 6 && "preinst"@.len() == 7 && "postinst"@.len() == 8
            && "prerm"@.len() == 5 && "postrm"@.len() == 6 && "templates"@.len() == 9);
    }
}

proof fn lemma_script_entries_no_name(dirs: Seq<ScriptSetView>, time: u64, x: Seq<char>)
    requires
        forall|n: ScriptName| x != #[trigger] n.spec_str(),
    ensures
        !has_name(script_entries(dirs, time), x),
{
    let e1 = script_entry(dirs, ScriptName::Config, time);
    let e2 = script_entry(dirs, ScriptName::Preinst, time);
    let e3 = script_entry(dirs, ScriptName::Postinst, time);
    let e4 = script_entry(dirs, ScriptName::Prerm, time);
    let e5 = script_entry(dirs, ScriptName::Postrm, time);
    let e6 = script_entry(dirs, ScriptName::Templates, time);
    lemma_script_entry_names(dirs, ScriptName::Config, time, x);
    lemma_script_entry_names(dirs, ScriptName::Preinst, time, x);
    lemma_script_entry_names(dirs, ScriptName::Postinst, time, x);
    lemma_script_entry_names(dirs, ScriptName::Prerm, time, x);
    lemma_script_entry_names(dirs, ScriptName::Postrm, time, x);
    lemma_script_entry_names(dirs, ScriptName::Templates, time, x);
    lemma_has_name_concat(e1, e2, x);
    lemma_has_name_concat(e1 + e2, e3, x);
    lemma_has_name_concat(e1 + e2 + e3, e4, x);
    lemma_has_name_concat(e1 + e2 + e3 + e4, e5, x);
    lemma_has_name_concat(e1 + e2 + e3 + e4 + e5, e6, x);
    assert(script_entries(dirs, time) == e1 + e2 + e3 + e4 + e5 + e6);
}

/// No script step ever contributes a member under a name other than the six
/// canonical script names.
pub proof fn lemma_scripts_entries_no_name(
    user: Option<ScriptSetView>,
    fragments: Option<ScriptSetView>,
    time: u64,
    x: Seq<char>,
)
    requires
        forall|n: ScriptName| x != #[trigger] n.spec_str(),
    ensures
        match spec_scripts_entries(user, fragments, time) {
            Ok(es) => !has_name(es, x),
            Err(_) => true,
        },
{
    match user {
        None => {},
        Some(u) => {
            match fragments {
                None => {
                    lemma_script_entries_no_name(seq![u], time, x);
                },
                Some(fr) => {
                    if merge_all_ok(u, fr) {
                        lemma_script_entries_no_name(seq![spec_merged(u, fr), u], time, x);
                    }
                },
            }
        },
    }
}

/// The archive entries the maintainer-script step contributes, or the fault
/// that aborts the whole assembly: when systemd integration is active the
/// workspace of merged scripts is searched before the user's directory, and
/// the merge fails on the first user script that needs a fragment but lacks
/// the placeholder.
pub open spec fn spec_scripts_entries(
    user: Option<ScriptSetView>,
    fragments: Option<ScriptSetView>,
    time: u64,
) -> Result<Seq<EntryView>, Error> {
    match user {
        None => Ok(seq![]),
        Some(u) => match fragments {
            None => Ok(script_entries(seq![u], time)),
            Some(fr) => if merge_all_ok(u, fr) {
                Ok(script_entries(seq![spec_merged(u, fr), u], time))
            } else {
                Err(Error::MissingDebhelperToken { script: first_bad_name(u, fr) })
            },
        },
    }
}

/// Resolves the maintainer scripts through the search path — the merged
/// workspace first when systemd integration is active, the user's directory
/// otherwise or after it — and appends each resolved script with mode 0755,
/// or reports the fault that aborts the build, leaving the archive as it
/// was.
#[verifier::rlimit(100)]
pub fn generate_scripts(
    archive: &mut ControlArchive,
    user_scripts: &Option<ScriptSet>,
    systemd_fragments: &Option<ScriptSet>,
) -> (r: Result<(), Error>)
    requires
        old(archive).wf(),
        forall|n: ScriptName| !has_name(old(archive)@, #[trigger] n.spec_str()),
    ensures
        ({
            let spec_r = spec_scripts_entries(
                match *user_scripts {
                    Some(ref u) => Some(u@),
                    None => None,
                },
                match *systemd_fragments {
                    Some(ref f) => Some(f@),
                    None => None,
                },
                old(archive).timestamp(),
            );
            match spec_r {
                Ok(es) => r is Ok && final(archive)@ == old(archive)@ + es,
                Err(e) => r == Err::<(), Error>(e) && final(archive)@ == old(archive)@,
            }
        }),
        final(archive).timestamp() == old(archive).timestamp(),
        final(archive).wf(),
{
    let user = match user_scripts {
        None => {
            proof {
                assert(old(archive)@ + Seq::<EntryView>::empty() =~= old(archive)@);
            }
            return Ok(());
        },
        Some(u) => u,
    };
    let mut dirs: Vec<ScriptSet> = Vec::new();
    match systemd_fragments {
        Some(fr) => {
            match merge_scripts(user, fr) {
                Ok(ws) => {
                    dirs.push(ws);
                },
                Err(e) => {
                    return Err(e);
                },
            }
        },
        None => {},
    }
    dirs.push(clone_script_set(user));
    let ghost dv = dirs@.map_values(|d: ScriptSet| d@);
    proof {
        match *systemd_fragments {
            Some(ref fr) => {
                assert(dv =~= seq![spec_merged(user@, fr@), user@]);
            },
            None => {
                assert(dv =~= seq![user@]);
            },
        }
    }
    append_all_scripts(archive, &dirs);
    Ok(())
}

#[verifier::rlimit(100)]
fn append_all_scripts(archive: &mut ControlArchive, dirs: &Vec<ScriptSet>)
    requires
        old(archive).wf(),
        forall|n: ScriptName| !has_name(old(archive)@, #[trigger] n.spec_str()),
    ensures
        final(archive)@ == old(archive)@ + script_entries(
            dirs@.map_values(|d: ScriptSet| d@),
            old(archive).timestamp(),
        ),
        final(archive).timestamp() == old(archive).timestamp(),
        final(archive).wf(),
{
    let ghost dv = dirs@.map_values(|d: ScriptSet| d@);
    let ghost t = archive.timestamp();
    let ghost base = archive@;
    proof {
        lemma_script_names_distinct();
    }
    let ghost e1 = script_entry(dv, ScriptName::Config, t);
    let ghost e2 = script_entry(dv, ScriptName::Preinst, t);
    let ghost e3 = script_entry(dv, ScriptName::Postinst, t);
    let ghost e4 = script_entry(dv, ScriptName::Prerm, t);
    let ghost e5 = script_entry(dv, ScriptName::Postrm, t);
    let ghost e6 = script_entry(dv, ScriptName::Templates, t);
    append_script(archive, dirs, ScriptName::Config);
    proof {
        lemma_has_name_concat(base, e1, ScriptName::Preinst.spec_str());
        lemma_script_entry_names(dv, ScriptName::Config, t, ScriptName::Preinst.spec_str());
    }
    append_script(archive, dirs, ScriptName::Preinst);
    proof {
        assert(archive@ == base + e1 + e2);
        lemma_has_name_concat(base + e1, e2, ScriptName::Postinst.spec_str());
        lemma_has_name_concat(base, e1, ScriptName::Postinst.spec_str());
        lemma_script_entry_names(dv, ScriptName::Config, t, ScriptName::Postinst.spec_str());
        lemma_script_entry_names(dv, ScriptName::Preinst, t, ScriptName::Postinst.spec_str());
    }
    append_script(archive, dirs, ScriptName::Postinst);
    proof {
        assert(archive@ == base + e1 + e2 + e3);
        lemma_has_name_concat(base + e1 + e2, e3, ScriptName::Prerm.spec_str());
        lemma_has_name_concat(base + e1, e2, ScriptName::Prerm.spec_str());
        lemma_has_name_concat(base, e1, ScriptName::Prerm.spec_str());
        lemma_script_entry_names(dv, ScriptName::Config, t, ScriptName::Prerm.spec_str());
        lemma_script_entry_names(dv, ScriptName::Preinst, t, ScriptName::Prerm.spec_str());
        lemma_script_entry_names(dv, ScriptName::Postinst, t, ScriptName::Prerm.spec_str());
    }
    append_script(archive, dirs, ScriptName::Prerm);
    proof {
        assert(archive@ == base + e1 + e2 + e3 + e4);
        lemma_has_name_concat(base + e1 + e2 + e3, e4, ScriptName::Postrm.spec_str());
        lemma_has_name_concat(base + e1 + e2, e3, ScriptName::Postrm.spec_str());
        lemma_has_name_concat(base + e1, e2, ScriptName::Postrm.spec_str());
        lemma_has_name_concat(base, e1, ScriptName::Postrm.spec_str());
        lemma_script_entry_names(dv, ScriptName::Config, t, ScriptName::Postrm.spec_str());
        lemma_script_entry_names(dv, ScriptName::Preinst, t, ScriptName::Postrm.spec_str());
        lemma_script_entry_names(dv, ScriptName::Postinst, t, ScriptName::Postrm.spec_str());
        lemma_script_entry_names(dv, ScriptName::Prerm, t, ScriptName::Postrm.spec_str());
    }
    append_script(archive, dirs, ScriptName::Postrm);
    proof {
        assert(archive@ == base + e1 + e2 + e3 + e4 + e5);
        lemma_has_name_concat(base + e1 + e2 + e3 + e4, e5, ScriptName::Templates.spec_str());
        lemma_has_name_concat(base + e1 + e2 + e3, e4, ScriptName::Templates.spec_str());
        lemma_has_name_concat(base + e1 + e2, e3, ScriptName::Templates.spec_str());
        lemma_has_name_concat(base + e1, e2, ScriptName::Templates.spec_str());
        lemma_has_name_concat(base, e1, ScriptName::Templates.spec_str());
        lemma_script_entry_names(dv, ScriptName::Config, t, ScriptName::Templates.spec_str());
        lemma_script_entry_names(dv, ScriptName::Preinst, t, ScriptName::Templates.spec_str());
        lemma_script_entry_names(dv, ScriptName::Postinst, t, ScriptName::Templates.spec_str());
        lemma_script_entry_names(dv, ScriptName::Prerm, t, ScriptName::Templates.spec_str());
        lemma_script_entry_names(dv, ScriptName::Postrm, t, ScriptName::Templates.spec_str());
    }
    append_script(archive, dirs, ScriptName::Templates);
    proof {
        assert(archive@ == base + e1 + e2 + e3 + e4 + e5 + e6);
        assert(archive@ =~= base + (e1 + e2 + e3 + e4 + e5 + e6));
        assert(e1 + e2 + e3 + e4 + e5 + e6 =~= script_entries(dv, t));
    }
}

} // verus!
