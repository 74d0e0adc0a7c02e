//! APK (ZIP) loading: the DEX code, the manifest, and fallbacks that guess
//! the package and launcher activity from the DEX classes.
use vstd::prelude::*;
use std::io::Cursor;
use std::io::Read;
use zip::result::ZipError;
use zip::ZipArchive;
use crate::android::axml::{manifest_spec, opt_chars_of_string, parse_package_and_launcher};
use crate::android::dex::{dex_magic_ok, dex_of, hdr, header_ok, tables_ok, ClassView, DexFile, DexView};
use crate::android::error::{AndroidError, ErrView};
use crate::text::{chars_of, has_substring, push_char, str_contains, str_eq};

verus! {

// ── The ZIP reader ────────────────────────────────────────────────────

#[verifier::external_type_specification]
#[verifier::external_body]
#[verifier::reject_recursive_types(T)]
pub struct ExCursor<T>(Cursor<T>);

#[verifier::external_type_specification]
#[verifier::external_body]
#[verifier::reject_recursive_types(R)]
pub struct ExZipArchive<R>(ZipArchive<R>);

#[verifier::external_type_specification]
#[verifier::external_body]
pub struct ExZipError(ZipError);

/// The bytes an archive reads from.
pub uninterp spec fn zip_source(a: ZipArchive<Cursor<&[u8]>>) -> Seq<u8>;

/// The names of the entries of the archive in `data`, in index order, when
/// `ZipArchive::new` accepts it.
pub uninterp spec fn zip_listing(data: Seq<u8>) -> Option<Seq<Seq<char>>>;

/// Whether `ZipArchive::by_index` opens entry `i` of the archive in `data`.
pub uninterp spec fn zip_entry_opens(data: Seq<u8>, i: int) -> bool;

/// The decompressed contents of entry `i` of the archive in `data`, when
/// reading it succeeds.
pub uninterp spec fn zip_entry_data(data: Seq<u8>, i: int) -> Option<Seq<u8>>;

/// `ZipArchive::new(Cursor::new(data))`: opens the archive in `data`. It
/// succeeds exactly when `zip_listing(data)` names its entries, and reads
/// from `data`.
#[verifier::external_body]
fn zip_open(data: &[u8]) -> (r: Result<ZipArchive<Cursor<&[u8]>>, ZipError>)
    ensures
        match r {
            Ok(a) => zip_listing(data@) is Some && zip_source(a) == data@,
            Err(_) => zip_listing(data@) is None,
        },
{
    ZipArchive::new(Cursor::new(data))
}

/// `ZipArchive::len`: the number of entries.
#[verifier::external_body]
fn zip_len(a: &ZipArchive<Cursor<&[u8]>>) -> (r: usize)
    ensures
        zip_listing(zip_source(*a)) matches Some(l) ==> r == l.len(),
{
    a.len()
}

/// `ZipArchive::by_index(i)`, then `ZipFile::name`: the name of entry `i`
/// as the archive lists it. It fails where `by_index` fails, which it does
/// for an index past the last entry. The archive still reads from the same
/// bytes.
#[verifier::external_body]
fn zip_entry_name(a: &mut ZipArchive<Cursor<&[u8]>>, i: usize) -> (r: Result<String, ZipError>)
    ensures
        zip_source(*final(a)) == zip_source(*old(a)),
        r is Ok == zip_entry_opens(zip_source(*old(a)), i as int),
        zip_listing(zip_source(*old(a))) matches Some(l) ==> (r matches Ok(n) ==> (i as int) < l.len() && n@ == l[i as int]),
{
    match a.by_index(i) {
        Ok(f) => Ok(f.name().to_string()),
        Err(e) => Err(e),
    }
}

/// `ZipArchive::by_index(i)`, then `Read::read_to_end`: the decompressed
/// contents of entry `i`, or the text of the error. Of an entry that opens,
/// it gives exactly `zip_entry_data`. The archive still reads from the same
/// bytes.
#[verifier::external_body]
fn zip_entry_bytes(a: &mut ZipArchive<Cursor<&[u8]>>, i: usize) -> (r: Result<Vec<u8>, String>)
    ensures
        zip_source(*final(a)) == zip_source(*old(a)),
        zip_entry_opens(zip_source(*old(a)), i as int) ==> match r {
            Ok(v) => zip_entry_data(zip_source(*old(a)), i as int) == Some(v@),
            Err(_) => zip_entry_data(zip_source(*old(a)), i as int) is None,
        },
{
    match a.by_index(i) {
        Ok(mut f) => {
            let mut buf = Vec::new();
            match f.read_to_end(&mut buf) {
                Ok(_) => Ok(buf),
                Err(e) => Err(e.to_string()),
            }
        },
        Err(e) => Err(e.to_string()),
    }
}

/// `ZipError`'s `Display` text.
#[verifier::external_body]
fn zip_error_text(e: &ZipError) -> String {
    e.to_string()
}

// ── Guesses from the DEX ──────────────────────────────────────────────

/// Index of the last `/` in `s`, if any.
pub open spec fn last_slash(s: Seq<char>) -> Option<int>
    decreases s.len(),
{
    if s.len() == 0 {
        None
    } else if s.last() == '/' {
        Some(s.len() - 1)
    } else {
        last_slash(s.drop_last())
    }
}

/// `s` with every `/` turned into `.`.
pub open spec fn slashes_to_dots(s: Seq<char>) -> Seq<char> {
    s.map_values(|c: char| if c == '/' { '.' } else { c })
}

/// The package of a class descriptor: `Lcom/foo/Bar;` gives `com.foo`, a
/// descriptor without `/` its inner name.
pub open spec fn descriptor_package(d: Seq<char>) -> Option<Seq<char>> {
    if d.len() >= 2 && d[0] == 'L' && d.last() == ';' {
        let s = d.subrange(1, d.len() - 1);
        match last_slash(s) {
            Some(k) => Some(slashes_to_dots(s.take(k))),
            None => Some(s),
        }
    } else {
        None
    }
}

/// The package the first class with a package descriptor belongs to.
pub open spec fn guess_package(classes: Seq<ClassView>) -> Seq<char>
    decreases classes.len(),
{
    if classes.len() == 0 {
        "unknown"@
    } else {
        match descriptor_package(classes[0].descriptor) {
            Some(p) => p,
            None => guess_package(classes.drop_first()),
        }
    }
}

pub open spec fn looks_like_activity(d: Seq<char>) -> bool {
    has_substring(d, "Hello"@) || has_substring(d, "Main"@) || has_substring(d, "Activity"@)
}

/// The first class that looks like an activity.
pub open spec fn first_activity(classes: Seq<ClassView>) -> Option<Seq<char>>
    decreases classes.len(),
{
    if classes.len() == 0 {
        None
    } else if looks_like_activity(classes[0].descriptor) {
        Some(classes[0].descriptor)
    } else {
        first_activity(classes.drop_first())
    }
}

/// The first class that looks like an activity, else the first class.
pub open spec fn guess_activity(classes: Seq<ClassView>) -> Option<Seq<char>> {
    match first_activity(classes) {
        Some(d) => Some(d),
        None => if classes.len() > 0 { Some(classes[0].descriptor) } else { None },
    }
}

fn descriptor_to_package(desc: &str) -> (r: Option<String>)
    ensures
        opt_chars_of_string(r) == descriptor_package(desc@),
{
    let d = chars_of(desc);
    let n = d.len();
    if !(n >= 2 && d[0] == 'L' && d[n - 1] == ';') {
        return None;
    }
    let ghost s = d@.subrange(1, n - 1);
    let mut k: usize = n - 1;
    assert(s.take(k - 1) =~= s);
    while k > 1 && d[k - 1] != '/'
        invariant
            1 <= k <= n - 1,
            n == d@.len(),
            s == d@.subrange(1, n - 1),
            last_slash(s) == last_slash(s.take(k - 1)),
        decreases k,
    {
        assert(s.take(k - 1).drop_last() =~= s.take(k - 2));
        k = k - 1;
    }
    let mut out = String::new();
    if k > 1 {
        assert(s.take(k - 1).drop_last() =~= s.take(k - 2));
        assert(last_slash(s) == Some((k - 2) as int));
        let mut i: usize = 1;
        while i < k - 1
            invariant
                1 <= i <= k - 1,
                k <= n - 1,
                n == d@.len(),
                s == d@.subrange(1, n - 1),
                out@ == slashes_to_dots(s.take(i - 1)),
            decreases k - 1 - i,
        {
            let c = d[i];
            push_char(&mut out, if c == '/' { '.' } else { c });
            assert(slashes_to_dots(s.take(i as int)) =~= slashes_to_dots(s.take(i - 1)).push(if c == '/' { '.' } else { c }));
            i = i + 1;
        }
    } else {
        assert(s.take(0) =~= Seq::<char>::empty());
        let mut i: usize = 1;
        while i < n - 1
            invariant
                1 <= i <= n - 1,
                n == d@.len(),
                s == d@.subrange(1, n - 1),
                out@ == s.take(i - 1),
            decreases n - 1 - i,
        {
            push_char(&mut out, d[i]);
            assert(s.take(i as int) =~= s.take(i - 1).push(d@[i as int]));
            i = i + 1;
        }
        assert(s.take(n - 2) =~= s);
    }
    Some(out)
}

fn guess_package_from_dex(dex: &DexFile) -> (r: String)
    ensures
        r@ == guess_package(dex@.classes),
{
    let ghost cs = dex@.classes;
    let mut i: usize = 0;
    assert(cs.skip(0) =~= cs);
    while i < dex.classes.len()
        invariant
            cs == dex@.classes,
            i <= cs.len(),
            guess_package(cs) == guess_package(cs.skip(i as int)),
        decreases dex.classes.len() - i,
    {
        assert(cs.skip(i as int)[0] == dex.classes@[i as int]@);
        assert(cs.skip(i as int).drop_first() =~= cs.skip(i + 1));
        match descriptor_to_package(dex.classes[i].descriptor.as_str()) {
            Some(p) => return p,
            None => {},
        }
        i = i + 1;
    }
    proof {
        reveal_strlit("unknown");
    }
    String::from_str("unknown")
}

fn guess_activity_from_dex(dex: &DexFile) -> (r: Option<String>)
    ensures
        opt_chars_of_string(r) == guess_activity(dex@.classes),
{
    let ghost cs = dex@.classes;
    let mut i: usize = 0;
    assert(cs.skip(0) =~= cs);
    while i < dex.classes.len()
        invariant
            cs == dex@.classes,
            i <= cs.len(),
            first_activity(cs) == first_activity(cs.skip(i as int)),
        decreases dex.classes.len() - i,
    {
        assert(cs.skip(i as int)[0] == dex.classes@[i as int]@);
        assert(cs.skip(i as int).drop_first() =~= cs.skip(i + 1));
        let d = dex.classes[i].descriptor.as_str();
        if str_contains(d, "Hello") || str_contains(d, "Main") || str_contains(d, "Activity") {
            return Some(dex.classes[i].descriptor.clone());
        }
        i = i + 1;
    }
    if dex.classes.len() > 0 {
        Some(dex.classes[0].descriptor.clone())
    } else {
        None
    }
}

// ── Loading ───────────────────────────────────────────────────────────

/// An APK read into memory.
#[derive(Debug)]
pub struct LoadedApk {
    pub package_name: String,
    pub launcher_activity: Option<String>,
    pub dex: DexFile,
    pub apk_size: usize,
}

pub struct LoadedView {
    pub package_name: Seq<char>,
    pub launcher_activity: Option<Seq<char>>,
    pub dex: DexView,
    pub apk_size: usize,
}

impl View for LoadedApk {
    type V = LoadedView;

    open spec fn view(&self) -> LoadedView {
        LoadedView {
            package_name: self.package_name@,
            launcher_activity: opt_chars_of_string(self.launcher_activity),
            dex: self.dex@,
            apk_size: self.apk_size,
        }
    }
}

/// What loading the APK in `b` gives: `Err` of the kind stated, or `Ok`
/// with exactly this content.
pub open spec fn apk_outcome(b: Seq<u8>, r: Result<LoadedView, ErrView>) -> bool {
    if !(b.len() >= 4 && b[0] == 0x50 && b[1] == 0x4b) {
        r == Err::<LoadedView, ErrView>(ErrView::NotZip("missing PK header"@))
    } else {
        match zip_listing(b) {
            None => r matches Err(ErrView::NotZip(_)),
            Some(names) => if !entries_read(b, names) {
                r matches Err(ErrView::NotZip(_))
            } else {
                match last_entry(b, names, "classes.dex"@) {
                    None => r == Err::<LoadedView, ErrView>(ErrView::MissingDex),
                    Some(d) => if !dex_ok(d) {
                        r matches Err(ErrView::Dex(_))
                    } else {
                        let (p, a) = apk_identity(last_entry(b, names, "AndroidManifest.xml"@), dex_of(d));
                        r == Ok::<LoadedView, ErrView>(LoadedView { package_name: p, launcher_activity: a, dex: dex_of(d), apk_size: b.len() as usize })
                    },
                }
            },
        }
    }
}

/// A load result by its contents.
pub open spec fn load_view(r: Result<LoadedApk, AndroidError>) -> Result<LoadedView, ErrView> {
    match r {
        Ok(a) => Ok(a@),
        Err(e) => Err(e@),
    }
}

impl LoadedApk {
    /// A copy of this APK.
    pub fn duplicate(&self) -> (r: LoadedApk)
        ensures
            r@ == self@,
    {
        let launcher_activity = match &self.launcher_activity {
            Some(a) => Some(a.clone()),
            None => None,
        };
        LoadedApk {
            package_name: self.package_name.clone(),
            launcher_activity,
            dex: self.dex.duplicate(),
            apk_size: self.apk_size,
        }
    }
}

/// Whether every entry opens, and every `classes.dex` and
/// `AndroidManifest.xml` entry reads.
pub open spec fn entries_read(data: Seq<u8>, names: Seq<Seq<char>>) -> bool {
    forall|i: int|
        #![trigger zip_entry_opens(data, i)]
        #![trigger zip_entry_data(data, i)]
        0 <= i < names.len() ==> zip_entry_opens(data, i) && ((names[i] == "classes.dex"@ || names[i]
            == "AndroidManifest.xml"@) ==> zip_entry_data(data, i) is Some)
}

/// The contents of the last entry called `name`, if any.
pub open spec fn last_entry(data: Seq<u8>, names: Seq<Seq<char>>, name: Seq<char>) -> Option<Seq<u8>>
    decreases names.len(),
{
    if names.len() == 0 {
        None
    } else if names.last() == name {
        zip_entry_data(data, names.len() - 1)
    } else {
        last_entry(data, names.drop_last(), name)
    }
}

/// The package and activity of an APK whose DEX is `dex`: from the
/// manifest when there is one and it reads, else guessed from the DEX.
pub open spec fn apk_identity(manifest: Option<Seq<u8>>, dex: DexView) -> (Seq<char>, Option<Seq<char>>) {
    match manifest {
        Some(m) => match manifest_spec(m) {
            Ok(v) => v,
            Err(_) => (guess_package(dex.classes), guess_activity(dex.classes)),
        },
        None => (guess_package(dex.classes), guess_activity(dex.classes)),
    }
}

/// Whether the bytes parse as a DEX file.
pub open spec fn dex_ok(d: Seq<u8>) -> bool {
    header_ok(d) && tables_ok(d)
}

#[verifier::loop_isolation(false)]
/// Reads an APK: its `classes.dex` (the last one if several) and manifest.
pub fn load_apk_bytes(apk_bytes: &[u8]) -> (r: Result<LoadedApk, AndroidError>)
    ensures
        apk_outcome(apk_bytes@, load_view(r)),
{
    if apk_bytes.len() < 4 || !(apk_bytes[0] == 0x50 && apk_bytes[1] == 0x4b) {
        return Err(AndroidError::NotZip(String::from_str("missing PK header")));
    }
    let mut archive = match zip_open(apk_bytes) {
        Ok(a) => a,
        Err(e) => return Err(AndroidError::NotZip(zip_error_text(&e))),
    };
    let ghost names = zip_listing(apk_bytes@)->Some_0;
    let count = zip_len(&archive);
    let mut dex_bytes: Option<Vec<u8>> = None;
    let mut manifest_bytes: Option<Vec<u8>> = None;
    let mut i: usize = 0;
    while i < count
        invariant
            zip_source(archive) == apk_bytes@,
            zip_listing(apk_bytes@) == Some(names),
            count == names.len(),
            i <= count,
            forall|k: int|
                0 <= k < i ==> zip_entry_opens(apk_bytes@, k) && ((names[k] == "classes.dex"@ || names[k]
                    == "AndroidManifest.xml"@) ==> #[trigger] zip_entry_data(apk_bytes@, k) is Some),
            opt_bytes(dex_bytes) == last_entry(apk_bytes@, names.take(i as int), "classes.dex"@),
            opt_bytes(manifest_bytes) == last_entry(apk_bytes@, names.take(i as int), "AndroidManifest.xml"@),
        decreases count - i,
    {
        assert(names.take(i + 1).drop_last() =~= names.take(i as int));
        proof {
            reveal_strlit("classes.dex");
            reveal_strlit("AndroidManifest.xml");
        }
        let name = match zip_entry_name(&mut archive, i) {
            Ok(n) => n,
            Err(e) => return Err(AndroidError::NotZip(zip_error_text(&e))),
        };
        assert(names.take(i + 1).last() == names[i as int]);
        assert(name@ == names[i as int]);
        if str_eq(name.as_str(), "classes.dex") {
            match zip_entry_bytes(&mut archive, i) {
                Ok(buf) => dex_bytes = Some(buf),
                Err(msg) => return Err(AndroidError::NotZip(msg)),
            }
        } else if str_eq(name.as_str(), "AndroidManifest.xml") {
            match zip_entry_bytes(&mut archive, i) {
                Ok(buf) => manifest_bytes = Some(buf),
                Err(msg) => return Err(AndroidError::NotZip(msg)),
            }
        }
        i = i + 1;
    }
    assert(names.take(count as int) =~= names);
    let dex_bytes = match dex_bytes {
        Some(b) => b,
        None => return Err(AndroidError::MissingDex),
    };
    let dex = match DexFile::parse(dex_bytes.as_slice()) {
        Ok(d) => d,
        Err(e) => return Err(e),
    };
    let (package_name, launcher_activity) = match manifest_bytes {
        Some(m) => match parse_package_and_launcher(m.as_slice()) {
            Ok(v) => v,
            Err(_) => (guess_package_from_dex(&dex), guess_activity_from_dex(&dex)),
        },
        None => (guess_package_from_dex(&dex), guess_activity_from_dex(&dex)),
    };
    Ok(LoadedApk { package_name, launcher_activity, dex, apk_size: apk_bytes.len() })
}

pub open spec fn opt_bytes(o: Option<Vec<u8>>) -> Option<Seq<u8>> {
    match o {
        Some(v) => Some(v@),
        None => None,
    }
}

} // verus!
