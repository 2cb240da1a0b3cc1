use vstd::prelude::*;

use crate::archive::{has_name, ControlArchive, EntryView, MODE_META};
use crate::byteutil::push_bytes;
use crate::config::{AssetView, PackageConfig};
use crate::hexfmt::{hex_bytes, to_hex};
use vstd::utf8::encode_utf8;

verus! {

/// ASCII space.
pub const SP: u8 = 32;

/// ASCII line feed.
pub const NL: u8 = 10;

/// The manifest line of one asset: digest in lowercase hex, two spaces, the
/// unix-style target path, a newline — and nothing for a digest-less asset,
/// which is presumed a symlink.
pub open spec fn md5sums_line(a: AssetView) -> Seq<u8> {
    match a.content_digest {
        Some(d) => hex_bytes(d) + seq![SP, SP] + encode_utf8(a.target_path) + seq![NL],
        None => seq![],
    }
}

/// The whole integrity manifest, one line per digest-bearing asset, in asset
/// order.
pub open spec fn md5sums_bytes(assets: Seq<AssetView>) -> Seq<u8>
    decreases assets.len(),
{
    if assets.len() == 0 {
        seq![]
    } else {
        md5sums_line(assets[0]) + md5sums_bytes(assets.drop_first())
    }
}

proof fn lemma_md5sums_push(s: Seq<AssetView>, a: AssetView)
    ensures
        md5sums_bytes(s.push(a)) == md5sums_bytes(s) + md5sums_line(a),
    decreases s.len(),
{
    if s.len() == 0 {
        assert(s.push(a)[0] == a);
        assert(s.push(a).drop_first() =~= Seq::<AssetView>::empty());
        assert(md5sums_bytes(Seq::<AssetView>::empty()) =~= Seq::<u8>::empty());
        assert(md5sums_bytes(s.push(a)) =~= md5sums_bytes(s) + md5sums_line(a));
    } else {
        lemma_md5sums_push(s.drop_first(), a);
        assert(s.push(a).drop_first() =~= s.drop_first().push(a));
        assert(s.push(a)[0] == s[0]);
        assert(md5sums_bytes(s.push(a)) =~= md5sums_bytes(s) + md5sums_line(a));
    }
}

/// Builds the integrity manifest from the assets' precomputed digests and
/// appends it as `./md5sums`.
pub fn generate_md5sums(archive: &mut ControlArchive, options: &PackageConfig)
    requires
        old(archive).wf(),
        !has_name(old(archive)@, "./md5sums"@),
    ensures
        final(archive)@ == old(archive)@.push(
            EntryView {
                name: "./md5sums"@,
                data: md5sums_bytes(options@.assets),
                mode: MODE_META,
                mtime: old(archive).timestamp(),
            },
        ),
        final(archive).timestamp() == old(archive).timestamp(),
        final(archive).wf(),
{
    let ghost av = options@.assets;
    let mut out: Vec<u8> = Vec::new();
    let mut i: usize = 0;
    proof {
        assert(av.subrange(0, 0) =~= Seq::<AssetView>::empty());
    }
    while i < options.assets.len()
        invariant
            0 <= i <= options.assets@.len(),
            av == options@.assets,
            av.len() == options.assets@.len(),
            out@ == md5sums_bytes(av.subrange(0, i as int)),
        decreases options.assets@.len() - i,
    {
        let asset = &options.assets[i];
        proof {
            assert(av[i as int] == options.assets@[i as int]@);
        }
        match &asset.content_digest {
            Some(d) => {
                let hex = to_hex(d);
                push_bytes(&mut out, &hex);
                out.push(SP);
                out.push(SP);
                let path = asset.target_path.as_str().as_bytes_vec();
                push_bytes(&mut out, &path);
                out.push(NL);
                proof {
                    assert(out@ =~= md5sums_bytes(av.subrange(0, i as int))
                        + md5sums_line(av[i as int]));
                }
            },
            None => {
                proof {
                    assert(out@ =~= md5sums_bytes(av.subrange(0, i as int))
                        + md5sums_line(av[i as int]));
                }
            },
        }
        proof {
            lemma_md5sums_push(av.subrange(0, i as int), av[i as int]);
            assert(av.subrange(0, i + 1) =~= av.subrange(0, i as int).push(av[i as int]));
            assert(out@ =~= md5sums_bytes(av.subrange(0, i + 1)));
        }
        i += 1;
    }
    proof {
        assert(av.subrange(0, av.len() as int) =~= av);
    }
    archive.file("./md5sums", out, MODE_META);
}

/// The conffiles member: the configured declaration verbatim, with exactly
/// one newline appended.
pub open spec fn conf_files_bytes(files: Seq<char>) -> Seq<u8> {
    encode_utf8(files) + seq![NL]
}

/// Writes the conffiles declaration as `./conffiles`.
pub fn generate_conf_files(archive: &mut ControlArchive, files: &str)
    requires
        old(archive).wf(),
        !has_name(old(archive)@, "./conffiles"@),
    ensures
        final(archive)@ == old(archive)@.push(
            EntryView {
                name: "./conffiles"@,
                data: conf_files_bytes(files@),
                mode: MODE_META,
                mtime: old(archive).timestamp(),
            },
        ),
        final(archive).timestamp() == old(archive).timestamp(),
        final(archive).wf(),
{
    let mut data = files.as_bytes_vec();
    data.push(NL);
    assert(data@ =~= conf_files_bytes(files@));
    archive.file("./conffiles", data, MODE_META);
}

/// Copies the configured triggers-file content verbatim as `./triggers`.
pub fn generate_triggers_file(archive: &mut ControlArchive, content: &Vec<u8>)
    requires
        old(archive).wf(),
        !has_name(old(archive)@, "./triggers"@),
    ensures
        final(archive)@ == old(archive)@.push(
            EntryView {
                name: "./triggers"@,
                data: content@,
                mode: MODE_META,
                mtime: old(archive).timestamp(),
            },
        ),
        final(archive).timestamp() == old(archive).timestamp(),
        final(archive).wf(),
{
    let data = crate::byteutil::clone_bytes(content);
    archive.file("./triggers", data, MODE_META);
}

} // verus!
