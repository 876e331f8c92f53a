//! Where a vault's two ring files lie.
//!
//! A vault is mirrored in two files, under the host's configuration directory and under its data
//! directory. Where the two directories are one and the same, the second file gets a name of its
//! own, so that a vault always has two distinct rings. The host's directories themselves are not
//! looked up here: a [`RingDir`] says which of them is meant and which names to descend.

use crate::error::{IoError, IoErrorKind, StorageError, StorageErrorView};
use crate::storage::App;
use crate::text::{concat2, same_text};
use vstd::prelude::*;
use vstd::string::StringExecFns;

verus! {

/// A directory that the host names.
pub enum RingBase {
    /// The user's configuration directory.
    Config,
    /// The user's data directory.
    Data,
    /// A directory given by name.
    Named(String),
}

/// A directory: a base, and the names to descend from it.
pub struct RingDir {
    pub base: RingBase,
    pub names: Vec<String>,
}

/// A ring file: its directory and its name there.
pub struct RingPath {
    pub dir: RingDir,
    pub file: String,
}

/// What the host says about its directories.
pub enum HostDirs {
    /// A desktop: whether it has a configuration directory, and whether it has a data directory.
    Desktop { has_config: bool, has_data: bool },
    /// Android: the `(primary, shadow)` directories that were injected, if they were.
    Android { dirs: Option<(String, String)> },
}

/// A [`RingBase`] as plain mathematics.
#[verifier::ext_equal]
pub enum RingBaseView {
    Config,
    Data,
    Named(Seq<char>),
}

/// A [`RingDir`] as plain mathematics.
#[verifier::ext_equal]
pub struct RingDirView {
    pub base: RingBaseView,
    pub names: Seq<Seq<char>>,
}

/// A [`RingPath`] as plain mathematics.
#[verifier::ext_equal]
pub struct RingPathView {
    pub dir: RingDirView,
    pub file: Seq<char>,
}

impl View for RingBase {
    type V = RingBaseView;

    open spec fn view(&self) -> RingBaseView {
        match self {
            RingBase::Config => RingBaseView::Config,
            RingBase::Data => RingBaseView::Data,
            RingBase::Named(path) => RingBaseView::Named(path@),
        }
    }
}

impl View for RingDir {
    type V = RingDirView;

    open spec fn view(&self) -> RingDirView {
        RingDirView { base: self.base@, names: self.names@.map_values(|name: String| name@) }
    }
}

impl View for RingPath {
    type V = RingPathView;

    open spec fn view(&self) -> RingPathView {
        RingPathView { dir: self.dir@, file: self.file@ }
    }
}

/// The two directories of a vault of the app directory `dir`, primary first.
pub open spec fn ring_dirs(dir: Seq<char>, host: HostDirs) -> Result<
    (RingDirView, RingDirView),
    StorageErrorView,
> {
    match host {
        HostDirs::Desktop { has_config, has_data } => {
            let primary = RingDirView { base: RingBaseView::Config, names: seq![dir] };
            if !has_config {
                Err(
                    StorageErrorView::Io {
                        kind: IoErrorKind::NotFound,
                        text: "config directory not found"@,
                    },
                )
            } else if has_data {
                Ok((primary, RingDirView { base: RingBaseView::Data, names: seq![dir] }))
            } else {
                Ok((primary, RingDirView { base: RingBaseView::Config, names: seq![dir, dir] }))
            }
        },
        HostDirs::Android { dirs } => match dirs {
            None => Err(
                StorageErrorView::Io {
                    kind: IoErrorKind::NotFound,
                    text:
                        "Android vault dirs not set — JNI shim must call set_android_vault_dirs"@,
                },
            ),
            Some((primary, shadow)) => {
                let first = RingDirView { base: RingBaseView::Named(primary@), names: seq![dir] };
                if shadow@.len() == 0 {
                    Ok((first, first))
                } else {
                    Ok(
                        (
                            first,
                            RingDirView { base: RingBaseView::Named(shadow@), names: seq![dir] },
                        ),
                    )
                }
            },
        },
    }
}

/// The two ring files of the vault called `filename` in the directories `dirs`, which are one
/// directory if they are described alike, or if `coincide`.
pub open spec fn ring_files(
    dirs: (RingDirView, RingDirView),
    filename: Seq<char>,
    coincide: bool,
) -> (RingPathView, RingPathView) {
    let shadow = if coincide || dirs.0 == dirs.1 {
        filename + ".shadow"@ + ".vsf"@
    } else {
        filename + ".vsf"@
    };
    (
        RingPathView { dir: dirs.0, file: filename + ".vsf"@ },
        RingPathView { dir: dirs.1, file: shadow },
    )
}

/// The name under which the vault of an app, a seed and a secret is filed.
pub uninterp spec fn vault_name(app_id: Seq<char>, vault_seed: Seq<u8>, secret: Seq<u8>) -> Seq<
    char,
>;

/// Whether `c` is one of the 64 characters of the URL-safe base64 alphabet.
pub open spec fn is_base64url(c: char) -> bool {
    'A' <= c <= 'Z' || 'a' <= c <= 'z' || '0' <= c <= '9' || c == '-' || c == '_'
}

/// Calls `tohu::vault_path_name`.
///
/// Believed of it: the name depends on the app, the seed and the secret alone, has 43 characters,
/// and is made of the URL-safe base64 alphabet.
#[verifier::external_body]
pub(crate) fn vault_path_name(app_id: &str, vault_seed: &[u8; 32], secret: &[u8; 32]) -> (name:
    String)
    ensures
        name@ == vault_name(app_id@, vault_seed@, secret@),
        name@.len() == 43,
        forall|i: int| 0 <= i < name@.len() ==> is_base64url(#[trigger] name@[i]),
{
    tohu::vault_path_name(app_id, vault_seed, secret)
}

/// A directory one name below `base`.
fn child_dir(base: RingBase, name: &str) -> (dir: RingDir)
    ensures
        dir@ == (RingDirView { base: base@, names: seq![name@] }),
        dir.base == base,
        dir.names@.len() == 1,
        dir.names@[0]@ == name@,
{
    let mut names: Vec<String> = Vec::new();
    names.push(name.to_owned());
    let dir = RingDir { base, names };
    assert(dir@.names == seq![name@]);
    dir
}

/// Finds the two directories of a vault: primary first, then shadow. A host without a
/// configuration directory, or an Android host whose directories were never injected, has none.
pub fn vault_dirs(dir: &str, host: &HostDirs) -> (dirs: Result<(RingDir, RingDir), StorageError>)
    ensures
        match dirs {
            Ok((primary, shadow)) => ring_dirs(dir@, *host) == Ok::<_, StorageErrorView>(
                (primary@, shadow@),
            ),
            Err(e) => ring_dirs(dir@, *host) == Err::<(RingDirView, RingDirView), _>(e@),
        },
        match (dirs, host) {
            (Ok((primary, shadow)), HostDirs::Desktop { has_config, has_data }) => {
                &&& *has_config
                &&& primary.base is Config && primary.names@.len() == 1 && primary.names@[0]@ == dir@
                &&& shadow.names@[0]@ == dir@
                &&& *has_data ==> shadow.base is Data && shadow.names@.len() == 1
                &&& !*has_data ==> shadow.base is Config && shadow.names@.len() == 2
                    && shadow.names@[1]@ == dir@
            },
            (Ok((primary, shadow)), HostDirs::Android { dirs: Some(given) }) => {
                &&& primary.base matches RingBase::Named(path) && path@ == given.0@
                &&& shadow.base matches RingBase::Named(path) && path@ == if given.1@.len() == 0 {
                    given.0@
                } else {
                    given.1@
                }
                &&& primary.names@.len() == 1 && primary.names@[0]@ == dir@
                &&& shadow.names@.len() == 1 && shadow.names@[0]@ == dir@
            },
            (Err(StorageError::Io(e)), HostDirs::Desktop { has_config, has_data: _ }) => {
                &&& !*has_config
                &&& e.kind == IoErrorKind::NotFound
                &&& e.text@ == "config directory not found"@
            },
            (Err(StorageError::Io(e)), HostDirs::Android { dirs: None }) => {
                &&& e.kind == IoErrorKind::NotFound
                &&& e.text@
                    == "Android vault dirs not set — JNI shim must call set_android_vault_dirs"@
            },
            _ => false,
        },
{
    match host {
        HostDirs::Desktop { has_config, has_data } => {
            if !*has_config {
                return Err(
                    StorageError::Io(
                        IoError {
                            kind: IoErrorKind::NotFound,
                            text: "config directory not found".to_owned(),
                        },
                    ),
                );
            }
            let primary = child_dir(RingBase::Config, dir);
            if *has_data {
                Ok((primary, child_dir(RingBase::Data, dir)))
            } else {
                let mut shadow = child_dir(RingBase::Config, dir);
                assert(shadow@.names.len() == 1 && shadow@.names[0] == dir@);
                shadow.names.push(dir.to_owned());
                assert(shadow@.names == seq![dir@, dir@]);
                Ok((primary, shadow))
            }
        },
        HostDirs::Android { dirs } => match dirs {
            None => Err(
                StorageError::Io(
                    IoError {
                        kind: IoErrorKind::NotFound,
                        text:
                            "Android vault dirs not set — JNI shim must call set_android_vault_dirs".to_owned(),
                    },
                ),
            ),
            Some((primary, shadow)) => {
                let second = if shadow.as_str().is_empty() {
                    primary.clone()
                } else {
                    shadow.clone()
                };
                Ok(
                    (
                        child_dir(RingBase::Named(primary.clone()), dir),
                        child_dir(RingBase::Named(second), dir),
                    ),
                )
            },
        },
    }
}

/// Whether `a` and `b` are the same base.
fn same_base(a: &RingBase, b: &RingBase) -> (same: bool)
    ensures
        same == (a@ == b@),
{
    match (a, b) {
        (RingBase::Config, RingBase::Config) => true,
        (RingBase::Data, RingBase::Data) => true,
        (RingBase::Named(p), RingBase::Named(q)) => same_text(p.as_str(), q.as_str()),
        _ => false,
    }
}

/// Whether `a` and `b` are described alike.
fn same_dir(a: &RingDir, b: &RingDir) -> (same: bool)
    ensures
        same == (a@ == b@),
{
    if !same_base(&a.base, &b.base) {
        return false;
    }
    if a.names.len() != b.names.len() {
        assert(a@.names.len() != b@.names.len());
        return false;
    }
    for i in 0..a.names.len()
        invariant
            a@.base == b@.base,
            a.names@.len() == b.names@.len(),
            forall|j: int| 0 <= j < i ==> #[trigger] a@.names[j] == b@.names[j],
    {
        if !same_text(a.names[i].as_str(), b.names[i].as_str()) {
            assert(a@.names[i as int] != b@.names[i as int]);
            return false;
        }
        assert(a@.names[i as int] == b@.names[i as int]);
    }
    assert(a@ =~= b@);
    true
}

/// Names the two ring files of the vault called `filename`: primary first, then shadow. `coincide`
/// says whether the two directories are one place on this host; directories described alike are one
/// place whatever it says.
pub fn vault_paths(dirs: (RingDir, RingDir), filename: &str, coincide: bool) -> (paths: [RingPath;
    2])
    ensures
        (paths[0]@, paths[1]@) == ring_files((dirs.0@, dirs.1@), filename@, coincide),
        paths[0].dir == dirs.0,
        paths[1].dir == dirs.1,
        paths[0].file@ == filename@ + ".vsf"@,
        coincide ==> paths[1].file@ == filename@ + ".shadow"@ + ".vsf"@,
        dirs.0@ == dirs.1@ ==> paths[1].file@ == filename@ + ".shadow"@ + ".vsf"@,
        !coincide && dirs.0@ != dirs.1@ ==> paths[1].file@ == filename@ + ".vsf"@,
{
    let primary_name = concat2(filename, ".vsf");
    let mut shadow_name = filename.to_owned();
    if coincide || same_dir(&dirs.0, &dirs.1) {
        shadow_name.append(".shadow");
    }
    shadow_name.append(".vsf");
    [
        RingPath { dir: dirs.0, file: primary_name },
        RingPath { dir: dirs.1, file: shadow_name },
    ]
}

/// The two ring files that the vault of `app`, `vault_seed` and `secret` occupies on a host, for
/// the store and for inspection tools alike. `coincide` says whether the two directories that
/// [`vault_dirs`] finds are one place on this host.
pub fn vault_ring_paths(
    app: App<'_>,
    vault_seed: &[u8; 32],
    secret: &[u8; 32],
    host: &HostDirs,
    coincide: bool,
) -> (paths: Result<[RingPath; 2], StorageError>)
    ensures
        match (paths, ring_dirs(app.dir@, *host)) {
            (Ok(found), Ok(dirs)) => (found[0]@, found[1]@) == ring_files(
                dirs,
                vault_name(app.id@, vault_seed@, secret@),
                coincide,
            ),
            (Err(e), Err(reason)) => e@ == reason,
            _ => false,
        },
        paths matches Ok(found) ==> found[0].file@ == vault_name(app.id@, vault_seed@, secret@)
            + ".vsf"@,
        paths matches Ok(found) ==> found[1].file@ == vault_name(app.id@, vault_seed@, secret@) + (
        if coincide || found[0].dir@ == found[1].dir@ {
            ".shadow"@ + ".vsf"@
        } else {
            ".vsf"@
        }),
        paths is Ok ==> vault_name(app.id@, vault_seed@, secret@).len() == 43,
        paths is Ok ==> forall|i: int|
            0 <= i < 43 ==> is_base64url(#[trigger] vault_name(app.id@, vault_seed@, secret@)[i]),
{
    let filename = vault_path_name(app.id, vault_seed, secret);
    match vault_dirs(app.dir, host) {
        Ok(dirs) => Ok(vault_paths(dirs, filename.as_str(), coincide)),
        Err(e) => Err(e),
    }
}

/// Injects the Android vault directories, in place of any injected before.
pub fn set_android_vault_dirs(
    slot: &mut Option<(String, String)>,
    primary: String,
    shadow: String,
)
    ensures
        *final(slot) == Some((primary, shadow)),
{
    *slot = Some((primary, shadow));
}

/// The injected Android vault directories, if they were.
pub fn android_vault_dirs(slot: &Option<(String, String)>) -> (dirs: Option<(String, String)>)
    ensures
        match (*slot, dirs) {
            (Some(held), Some(given)) => given.0@ == held.0@ && given.1@ == held.1@,
            (None, None) => true,
            _ => false,
        },
{
    match slot {
        Some((primary, shadow)) => Some((primary.clone(), shadow.clone())),
        None => None,
    }
}

/// A vault's two rings are never one file: wherever the two directories lie (`place`), the two files
/// differ in place or in name. Only of directories that are described differently and yet lie in one
/// place does `coincide` have to tell.
pub proof fn rings_are_two_files<P>(
    place: spec_fn(RingDirView) -> P,
    dirs: (RingDirView, RingDirView),
    filename: Seq<char>,
    coincide: bool,
)
    requires
        dirs.0 != dirs.1 && place(dirs.0) == place(dirs.1) ==> coincide,
    ensures
        ({
            let (primary, shadow) = ring_files(dirs, filename, coincide);
            (place(primary.dir), primary.file) != (place(shadow.dir), shadow.file)
        }),
{
    reveal_strlit(".shadow");
    let (primary, shadow) = ring_files(dirs, filename, coincide);
    if coincide || dirs.0 == dirs.1 {
        assert(primary.file.len() < shadow.file.len());
    }
}

/// Vaults filed under different names share no ring file's name: the names are all of one length, so
/// no ring of one vault is taken for a ring of another, the shadow's suffix notwithstanding.
pub proof fn ring_names_tell_vaults_apart(
    dirs: (RingDirView, RingDirView),
    name_a: Seq<char>,
    name_b: Seq<char>,
    coincide: bool,
)
    requires
        name_a.len() == name_b.len(),
        name_a != name_b,
    ensures
        ({
            let a = ring_files(dirs, name_a, coincide);
            let b = ring_files(dirs, name_b, coincide);
            a.0.file != b.0.file && a.0.file != b.1.file && a.1.file != b.0.file && a.1.file
                != b.1.file
        }),
{
    reveal_strlit(".shadow");
    reveal_strlit(".vsf");
    let a = ring_files(dirs, name_a, coincide);
    let b = ring_files(dirs, name_b, coincide);
    let n = name_a.len() as int;
    assert(a.0.file.take(n) == name_a);
    assert(a.1.file.take(n) == name_a);
    assert(b.0.file.take(n) == name_b);
    assert(b.1.file.take(n) == name_b);
}

/// A ring file lies directly in its directory: a name of the URL-safe base64 alphabet makes no file
/// name with a path separator in it.
pub proof fn ring_names_hold_no_separator(
    dirs: (RingDirView, RingDirView),
    filename: Seq<char>,
    coincide: bool,
    i: int,
)
    requires
        forall|j: int| 0 <= j < filename.len() ==> is_base64url(#[trigger] filename[j]),
    ensures
        ({
            let (primary, shadow) = ring_files(dirs, filename, coincide);
            &&& 0 <= i < primary.file.len() ==> primary.file[i] != '/' && primary.file[i] != '\\'
            &&& 0 <= i < shadow.file.len() ==> shadow.file[i] != '/' && shadow.file[i] != '\\'
        }),
{
    reveal_strlit(".shadow");
    reveal_strlit(".vsf");
    if 0 <= i < filename.len() {
        assert(is_base64url(filename[i]));
    }
}

/// A directory's view keeps all of it: two directories with one view start at one base and descend
/// the same names.
pub proof fn dir_views_tell_dirs_apart(a: RingDir, b: RingDir)
    requires
        a@ == b@,
    ensures
        match (a.base, b.base) {
            (RingBase::Config, RingBase::Config) => true,
            (RingBase::Data, RingBase::Data) => true,
            (RingBase::Named(p), RingBase::Named(q)) => p@ == q@,
            _ => false,
        },
        a.names@.len() == b.names@.len(),
        forall|i: int| 0 <= i < a.names@.len() ==> #[trigger] a.names@[i]@ == b.names@[i]@,
{
    assert(a@.names.len() == a.names@.len());
    assert(b@.names.len() == b.names@.len());
    assert forall|i: int| 0 <= i < a.names@.len() implies #[trigger] a.names@[i]@
        == b.names@[i]@ by {
        assert(a@.names[i] == a.names@[i]@);
        assert(b@.names[i] == b.names@[i]@);
    }
}

/// Where the rings lie depends on the host as promised: a desktop's under its configuration
/// directory and its data directory, Android's under the two directories that were injected, both
/// below the app's own directory; a host that offers no such place is an error, and only such a host.
pub proof fn rings_lie_where_the_host_says(dir: Seq<char>, host: HostDirs)
    ensures
        match host {
            HostDirs::Desktop { has_config, has_data } => {
                &&& has_config <==> ring_dirs(dir, host) is Ok
                &&& has_config ==> {
                    let (primary, shadow) = ring_dirs(dir, host)->Ok_0;
                    &&& primary.base is Config && primary.names == seq![dir]
                    &&& has_data ==> shadow.base is Data && shadow.names == seq![dir]
                    &&& !has_data ==> shadow.base is Config && shadow.names == seq![dir, dir]
                    &&& primary != shadow
                }
            },
            HostDirs::Android { dirs: Some(given) } => ring_dirs(dir, host) matches Ok(
                (primary, shadow),
            ) && {
                &&& primary.base == RingBaseView::Named(given.0@) && primary.names == seq![dir]
                &&& given.1@.len() == 0 ==> shadow == primary
                &&& given.1@.len() > 0 ==> shadow.base == RingBaseView::Named(given.1@)
                    && shadow.names == seq![dir]
            },
            HostDirs::Android { dirs: None } => ring_dirs(dir, host) is Err,
        },
        ring_dirs(dir, host) matches Err(e) ==> (e matches StorageErrorView::Io { kind, text: _ }
            && kind == IoErrorKind::NotFound),
{
    if host matches HostDirs::Desktop { has_config, has_data } && has_config {
        let (primary, shadow) = ring_dirs(dir, host)->Ok_0;
        assert(seq![dir].len() != seq![dir, dir].len());
        assert(primary != shadow);
    }
}

/// Ring files are named after the vault and end as ring files do, and keep their directories.
pub proof fn ring_files_are_named_after_the_vault(
    dirs: (RingDirView, RingDirView),
    filename: Seq<char>,
    coincide: bool,
)
    ensures
        ({
            let (primary, shadow) = ring_files(dirs, filename, coincide);
            &&& primary.dir == dirs.0
            &&& shadow.dir == dirs.1
            &&& primary.file == filename + ".vsf"@
            &&& (coincide || dirs.0 == dirs.1) ==> shadow.file == filename + ".shadow"@ + ".vsf"@
            &&& !(coincide || dirs.0 == dirs.1) ==> shadow.file == filename + ".vsf"@
        }),
{
}

} // verus!
