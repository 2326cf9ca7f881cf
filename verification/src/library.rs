//! Helpers of Blink's snapshot library: tags typed as a comma-separated
//! list, and what an image file's name says about it.

use vstd::prelude::*;
use vstd::string::*;
use crate::text::{owned, split_on, trim, trimmed_nonblank, trim_seq, views_of};
use crate::snapshot::{kind_label, NewSnapshot, SnapshotId, SnapshotKind, SnapshotSummary};

verus! {

/// The tags typed as a comma-separated list: each trimmed, blank ones dropped.
pub open spec fn parsed_tags(raw: Seq<char>) -> Seq<Seq<char>> {
    trimmed_nonblank(split_on(raw, ','))
}

pub proof fn lemma_split_on_nonempty(s: Seq<char>, sep: char)
    ensures
        split_on(s, sep).len() >= 1,
    decreases s.len(),
{
    if s.len() > 0 {
        lemma_split_on_nonempty(s.drop_last(), sep);
    }
}

/// Appending one more character to a text either starts a new part (the
/// separator) or extends the last part.
pub(crate) proof fn lemma_split_on_step(s: Seq<char>, i: int, start: int, sep: char)
    requires
        0 <= start <= i < s.len(),
        split_on(s.take(i), sep).last() == s.subrange(start, i),
    ensures
        s[i] == sep ==> split_on(s.take(i + 1), sep) == split_on(s.take(i), sep).push(
            Seq::<char>::empty(),
        ),
        s[i] != sep ==> split_on(s.take(i + 1), sep).drop_last() == split_on(s.take(i), sep).drop_last()
            && split_on(s.take(i + 1), sep).last() == s.subrange(start, i + 1),
        split_on(s.take(i + 1), sep).len() >= 1,
{
    let prev = s.take(i);
    let next = s.take(i + 1);
    assert(next.drop_last() =~= prev);
    assert(next.last() == s[i]);
    lemma_split_on_nonempty(prev, sep);
    lemma_split_on_nonempty(next, sep);
    if s[i] != sep {
        let r = split_on(prev, sep);
        assert(split_on(next, sep) == r.update(r.len() - 1, r.last().push(s[i])));
        assert(split_on(next, sep).drop_last() =~= r.drop_last());
        assert(s.subrange(start, i + 1) =~= s.subrange(start, i).push(s[i]));
    }
}

/// The tags typed as a comma-separated list: each trimmed, blank ones dropped.
pub fn parse_tags(raw: &str) -> (tags: Vec<String>)
    ensures
        views_of(tags@) == parsed_tags(raw@),
{
    let n = raw.unicode_len();
    let mut tags: Vec<String> = Vec::new();
    let mut start: usize = 0;
    let mut i: usize = 0;
    proof {
        assert(raw@.take(0) =~= Seq::<char>::empty());
        assert(views_of(tags@) =~= Seq::<Seq<char>>::empty());
        assert(raw@.subrange(0, 0) =~= Seq::<char>::empty());
    }
    while i < n
        invariant
            n == raw@.len(),
            start <= i <= n,
            split_on(raw@.take(i as int), ',').len() >= 1,
            split_on(raw@.take(i as int), ',').last() == raw@.subrange(start as int, i as int),
            views_of(tags@) == trimmed_nonblank(split_on(raw@.take(i as int), ',').drop_last()),
        decreases n - i,
    {
        proof {
            lemma_split_on_step(raw@, i as int, start as int, ',');
        }
        if raw.get_char(i) == ',' {
            let part = trim(raw.substring_char(start, i));
            let ghost parts = split_on(raw@.take(i as int), ',');
            proof {
                assert(split_on(raw@.take(i + 1), ',').drop_last() =~= parts);
                assert(parts.drop_last().push(parts.last()) =~= parts);
            }
            if part.unicode_len() > 0 {
                tags.push(owned(part));
                proof {
                    assert(views_of(tags@) =~= views_of(tags@).drop_last().push(part@));
                }
            }
            start = i + 1;
            proof {
                assert(raw@.subrange(start as int, start as int) =~= Seq::<char>::empty());
            }
        }
        i = i + 1;
    }
    proof {
        assert(raw@.take(n as int) =~= raw@);
    }
    let part = trim(raw.substring_char(start, n));
    let ghost parts = split_on(raw@, ',');
    proof {
        assert(parts.drop_last().push(parts.last()) =~= parts);
    }
    if part.unicode_len() > 0 {
        tags.push(owned(part));
        proof {
            assert(views_of(tags@) =~= views_of(tags@).drop_last().push(part@));
        }
    }
    tags
}

/// The last path segment that is neither empty nor `.`.
pub open spec fn last_real_segment(parts: Seq<Seq<char>>) -> Option<Seq<char>>
    decreases parts.len(),
{
    if parts.len() == 0 {
        None
    } else if parts.last().len() == 0 || parts.last() == "."@ {
        last_real_segment(parts.drop_last())
    } else {
        Some(parts.last())
    }
}

/// The final component of a Unix path, as `Path::file_name` gives it: none
/// for a path that ends in `..` or has no normal component.
pub open spec fn file_name_of(path: Seq<char>) -> Option<Seq<char>> {
    match last_real_segment(split_on(path, '/')) {
        None => None,
        Some(c) => if c == ".."@ {
            None
        } else {
            Some(c)
        },
    }
}

/// Index of the last occurrence of `c` in `s`, or -1 when there is none.
pub open spec fn find_last(s: Seq<char>, c: char) -> int
    decreases s.len(),
{
    if s.len() == 0 {
        -1
    } else if s.last() == c {
        s.len() - 1
    } else {
        find_last(s.drop_last(), c)
    }
}

pub proof fn lemma_find_last_bounds(s: Seq<char>, c: char)
    ensures
        -1 <= find_last(s, c) < s.len(),
    decreases s.len(),
{
    if s.len() > 0 {
        lemma_find_last_bounds(s.drop_last(), c);
    }
}

/// The extension of a file name, as `Path::extension` gives it: the part
/// after the last dot, unless that dot starts the name or there is none.
pub open spec fn extension_of_name(name: Seq<char>) -> Option<Seq<char>> {
    let p = find_last(name, '.');
    if p <= 0 {
        None
    } else {
        Some(name.skip(p + 1))
    }
}

pub open spec fn extension_of(path: Seq<char>) -> Option<Seq<char>> {
    match file_name_of(path) {
        None => None,
        Some(name) => extension_of_name(name),
    }
}

/// `c` in lower case, for the ASCII letters.
pub open spec fn ascii_lower(c: char) -> char {
    if 65 <= c as u32 <= 90 {
        ((c as u32) + 32) as char
    } else {
        c
    }
}

pub open spec fn ascii_lower_seq(s: Seq<char>) -> Seq<char> {
    s.map_values(|c: char| ascii_lower(c))
}

/// The MIME type of an image with this (lower-case) extension.
pub open spec fn mime_for_extension(ext: Seq<char>) -> Option<Seq<char>> {
    if ext == "png"@ {
        Some("image/png"@)
    } else if ext == "jpg"@ || ext == "jpeg"@ {
        Some("image/jpeg"@)
    } else if ext == "gif"@ {
        Some("image/gif"@)
    } else if ext == "webp"@ {
        Some("image/webp"@)
    } else if ext == "bmp"@ {
        Some("image/bmp"@)
    } else if ext == "tif"@ || ext == "tiff"@ {
        Some("image/tiff"@)
    } else if ext == "svg"@ {
        Some("image/svg+xml"@)
    } else {
        None
    }
}

pub open spec fn opt_view_str(o: Option<&str>) -> Option<Seq<char>> {
    match o {
        Some(s) => Some(s@),
        None => None,
    }
}

proof fn lemma_last_real_step(parts: Seq<Seq<char>>, found: Option<Seq<char>>)
    requires
        parts.len() >= 1,
        found == last_real_segment(parts.drop_last()),
    ensures
        last_real_segment(parts) == (if parts.last().len() == 0 || parts.last() == "."@ {
            found
        } else {
            Some(parts.last())
        }),
{
}

/// Whether a path segment is `.`.
fn is_dot(seg: &str) -> (b: bool)
    ensures
        b == (seg@ == "."@),
{
    crate::text::same_text(seg, ".")
}

/// The final component of a Unix path, as `Path::file_name` gives it.
pub fn file_name(path: &str) -> (name: Option<&str>)
    ensures
        opt_view_str(name) == file_name_of(path@),
{
    let n = path.unicode_len();
    let mut start: usize = 0;
    let mut i: usize = 0;
    let mut found: Option<&str> = None;
    proof {
        assert(path@.take(0) =~= Seq::<char>::empty());
        assert(path@.subrange(0, 0) =~= Seq::<char>::empty());
    }
    while i < n
        invariant
            n == path@.len(),
            start <= i <= n,
            split_on(path@.take(i as int), '/').len() >= 1,
            split_on(path@.take(i as int), '/').last() == path@.subrange(start as int, i as int),
            opt_view_str(found) == last_real_segment(
                split_on(path@.take(i as int), '/').drop_last(),
            ),
        decreases n - i,
    {
        proof {
            lemma_split_on_step(path@, i as int, start as int, '/');
        }
        if path.get_char(i) == '/' {
            let seg = path.substring_char(start, i);
            let ghost parts = split_on(path@.take(i + 1), '/').drop_last();
            proof {
                assert(parts == split_on(path@.take(i as int), '/'));
                assert(parts.drop_last() == split_on(path@.take(i as int), '/').drop_last());
                lemma_last_real_step(parts, opt_view_str(found));
            }
            if seg.unicode_len() > 0 && !is_dot(seg) {
                found = Some(seg);
            }
            start = i + 1;
            proof {
                assert(path@.subrange(start as int, start as int) =~= Seq::<char>::empty());
            }
        }
        i = i + 1;
    }
    proof {
        assert(path@.take(n as int) =~= path@);
        lemma_last_real_step(split_on(path@, '/'), opt_view_str(found));
    }
    let seg = path.substring_char(start, n);
    if seg.unicode_len() > 0 && !is_dot(seg) {
        found = Some(seg);
    }
    match found {
        None => None,
        Some(c) => if crate::text::same_text(c, "..") {
            None
        } else {
            Some(c)
        },
    }
}

fn last_dot(name: &str) -> (r: Option<usize>)
    ensures
        match r {
            Some(p) => p as int == find_last(name@, '.'),
            None => find_last(name@, '.') == -1,
        },
{
    let n = name.unicode_len();
    let mut j: usize = n;
    proof {
        assert(name@.take(n as int) =~= name@);
    }
    while j > 0
        invariant
            n == name@.len(),
            j <= n,
            find_last(name@, '.') == find_last(name@.take(j as int), '.'),
        decreases j,
    {
        let ghost t = name@.take(j as int);
        proof {
            assert(t.drop_last() =~= name@.take(j - 1));
            assert(t.last() == name@[j - 1]);
        }
        if name.get_char(j - 1) == '.' {
            return Some(j - 1);
        }
        j = j - 1;
    }
    proof {
        assert(name@.take(0) =~= Seq::<char>::empty());
    }
    None
}

/// The extension of a path, as `Path::extension` gives it.
pub fn extension(path: &str) -> (ext: Option<&str>)
    ensures
        opt_view_str(ext) == extension_of(path@),
{
    match file_name(path) {
        None => None,
        Some(name) => {
            proof {
                lemma_find_last_bounds(name@, '.');
            }
            let n = name.unicode_len();
            match last_dot(name) {
                None => None,
                Some(p) => if p == 0 {
                    None
                } else {
                    Some(name.substring_char(p + 1, n))
                },
            }
        },
    }
}

/// Whether `s` in ASCII lower case is `lower`.
fn lowercases_to(s: &str, lower: &str) -> (b: bool)
    ensures
        b == (ascii_lower_seq(s@) == lower@),
{
    let n = s.unicode_len();
    if n != lower.unicode_len() {
        assert(ascii_lower_seq(s@).len() != lower@.len());
        return false;
    }
    let mut i: usize = 0;
    while i < n
        invariant
            n == s@.len(),
            n == lower@.len(),
            i <= n,
            forall|k: int| 0 <= k < i ==> ascii_lower(#[trigger] s@[k]) == lower@[k],
        decreases n - i,
    {
        let c = s.get_char(i);
        let l = lower.get_char(i);
        let u = c as u32;
        let same = if 65 <= u && u <= 90 {
            u + 32 == l as u32
        } else {
            c == l
        };
        proof {
            if 65 <= u <= 90 {
                let lc = ((c as u32) + 32) as char;
                assert(lc as u32 == (c as u32) + 32);
                assert(same == (lc == l));
            }
        }
        if !same {
            assert(ascii_lower_seq(s@)[i as int] != lower@[i as int]);
            return false;
        }
        i = i + 1;
    }
    assert(ascii_lower_seq(s@) =~= lower@);
    true
}

/// The MIME type of an image file, told by its extension in any letter case.
pub fn infer_mime_type(path: &str) -> (mime: Option<String>)
    ensures
        opt_view_string(mime) == (match extension_of(path@) {
            None => None,
            Some(ext) => mime_for_extension(ascii_lower_seq(ext)),
        }),
{
    let ext = match extension(path) {
        None => {
            return None;
        },
        Some(e) => e,
    };
    let mime = if lowercases_to(ext, "png") {
        "image/png"
    } else if lowercases_to(ext, "jpg") || lowercases_to(ext, "jpeg") {
        "image/jpeg"
    } else if lowercases_to(ext, "gif") {
        "image/gif"
    } else if lowercases_to(ext, "webp") {
        "image/webp"
    } else if lowercases_to(ext, "bmp") {
        "image/bmp"
    } else if lowercases_to(ext, "tif") || lowercases_to(ext, "tiff") {
        "image/tiff"
    } else if lowercases_to(ext, "svg") {
        "image/svg+xml"
    } else {
        return None;
    };
    Some(owned(mime))
}

pub open spec fn opt_view_string(o: Option<String>) -> Option<Seq<char>> {
    match o {
        Some(s) => Some(s@),
        None => None,
    }
}

/// The MIME type of an image file follows its extension, taken in ASCII lower
/// case: png, jpg or jpeg, gif, webp, bmp, tif or tiff, and svg each give
/// their image type; any other extension, or none, gives no type.
pub proof fn lemma_image_mime_table(path: Seq<char>)
    ensures
        ({
            let mime = match extension_of(path) {
                None => None,
                Some(ext) => mime_for_extension(ascii_lower_seq(ext)),
            };
            let lower = match extension_of(path) {
                None => None,
                Some(ext) => Some(ascii_lower_seq(ext)),
            };
            &&& lower == Some("png"@) ==> mime == Some("image/png"@)
            &&& (lower == Some("jpg"@) || lower == Some("jpeg"@)) ==> mime == Some("image/jpeg"@)
            &&& lower == Some("gif"@) ==> mime == Some("image/gif"@)
            &&& lower == Some("webp"@) ==> mime == Some("image/webp"@)
            &&& lower == Some("bmp"@) ==> mime == Some("image/bmp"@)
            &&& (lower == Some("tif"@) || lower == Some("tiff"@)) ==> mime == Some("image/tiff"@)
            &&& lower == Some("svg"@) ==> mime == Some("image/svg+xml"@)
            &&& (lower != Some("png"@) && lower != Some("jpg"@) && lower != Some("jpeg"@) && lower
                != Some("gif"@) && lower != Some("webp"@) && lower != Some("bmp"@) && lower != Some(
                "tif"@,
            ) && lower != Some("tiff"@) && lower != Some("svg"@)) ==> mime is None
        }),
{
    if let Some(ext) = extension_of(path) {
        lemma_mime_for_extension(ascii_lower_seq(ext));
    }
}

proof fn lemma_mime_for_extension(x: Seq<char>)
    ensures
        x == "png"@ ==> mime_for_extension(x) == Some("image/png"@),
        (x == "jpg"@ || x == "jpeg"@) ==> mime_for_extension(x) == Some("image/jpeg"@),
        x == "gif"@ ==> mime_for_extension(x) == Some("image/gif"@),
        x == "webp"@ ==> mime_for_extension(x) == Some("image/webp"@),
        x == "bmp"@ ==> mime_for_extension(x) == Some("image/bmp"@),
        (x == "tif"@ || x == "tiff"@) ==> mime_for_extension(x) == Some("image/tiff"@),
        x == "svg"@ ==> mime_for_extension(x) == Some("image/svg+xml"@),
{
    reveal_strlit("png");
    reveal_strlit("jpg");
    reveal_strlit("jpeg");
    reveal_strlit("gif");
    reveal_strlit("webp");
    reveal_strlit("bmp");
    reveal_strlit("tif");
    reveal_strlit("tiff");
    reveal_strlit("svg");
    assert("png"@.len() == 3 && "png"@[0] == 'p');
    assert("jpg"@.len() == 3 && "jpg"@[0] == 'j');
    assert("jpeg"@.len() == 4 && "jpeg"@[0] == 'j');
    assert("gif"@.len() == 3 && "gif"@[0] == 'g');
    assert("webp"@.len() == 4 && "webp"@[0] == 'w');
    assert("bmp"@.len() == 3 && "bmp"@[0] == 'b');
    assert("tif"@.len() == 3 && "tif"@[0] == 't');
    assert("tiff"@.len() == 4 && "tiff"@[0] == 't');
    assert("svg"@.len() == 3 && "svg"@[0] == 's');
}

/// The label a stored file is listed under: its file name, or the whole
/// path when that has no file name or only a blank one.
pub open spec fn file_label_of(path: Seq<char>) -> Seq<char> {
    match file_name_of(path) {
        Some(name) => if trim_seq(name).len() > 0 {
            name
        } else {
            path
        },
        None => path,
    }
}

pub fn file_label(path: &str) -> (label: String)
    ensures
        label@ == file_label_of(path@),
{
    match file_name(path) {
        Some(name) => if trim(name).unicode_len() > 0 {
            owned(name)
        } else {
            owned(path)
        },
        None => owned(path),
    }
}


/// The line under a snapshot's title in the list: its kind, then the name of
/// its file, or else its source.
pub open spec fn snapshot_subtitle_of(
    kind: SnapshotKind,
    file_path: Option<Seq<char>>,
    source: Option<Seq<char>>,
) -> Seq<char> {
    match file_path {
        Some(path) => kind_label(kind) + " - "@ + file_label_of(path),
        None => match source {
            Some(src) => kind_label(kind) + " - "@ + src,
            None => kind_label(kind),
        },
    }
}

pub fn snapshot_subtitle(snapshot: &SnapshotSummary) -> (subtitle: String)
    ensures
        subtitle@ == snapshot_subtitle_of(
            snapshot.kind,
            opt_view_string(snapshot.file_path),
            opt_view_string(snapshot.source),
        ),
{
    let label = snapshot.kind.label();
    match &snapshot.file_path {
        Some(path) => owned(label).concat(" - ").concat(file_label(path.as_str()).as_str()),
        None => match &snapshot.source {
            Some(src) => owned(label).concat(" - ").concat(src.as_str()),
            None => owned(label),
        },
    }
}

/// Every parsed tag is trimmed and not blank.
pub proof fn lemma_parsed_tags_clean(raw: Seq<char>)
    ensures
        forall|i: int|
            0 <= i < parsed_tags(raw).len() ==> {
                let t = #[trigger] parsed_tags(raw)[i];
                &&& t.len() > 0
                &&& trim_seq(t) == t
            },
{
    crate::text::lemma_trimmed_nonblank_clean(split_on(raw, ','));
}


/// `String::push`: appends one character to the string.
#[verifier::external_body]
fn push_char(s: &mut String, c: char)
    ensures
        final(s)@ == old(s)@.push(c),
{
    s.push(c)
}

/// `char::to_ascii_lowercase`.
pub fn ascii_lower_char(c: char) -> (r: char)
    ensures
        r == ascii_lower(c),
{
    let u = c as u32;
    if 65 <= u && u <= 90 {
        let lower = ((u - 65) as u8 + 97u8) as char;
        assert(lower as u32 == u + 32);
        lower
    } else {
        c
    }
}

/// `str::to_ascii_lowercase`: the text with `A`–`Z` mapped to `a`–`z`.
pub fn ascii_lowercase(s: &str) -> (r: String)
    ensures
        r@ == ascii_lower_seq(s@),
{
    let n = s.unicode_len();
    let mut r = String::new();
    let mut i: usize = 0;
    while i < n
        invariant
            n == s@.len(),
            i <= n,
            r@ == ascii_lower_seq(s@.take(i as int)),
        decreases n - i,
    {
        let c = s.get_char(i);
        let lower = ascii_lower_char(c);
        proof {
            assert(s@.take(i + 1) =~= s@.take(i as int).push(c));
            assert(ascii_lower_seq(s@.take(i + 1)) =~= ascii_lower_seq(s@.take(i as int)).push(
                ascii_lower(c),
            ));
        }
        push_char(&mut r, lower);
        i = i + 1;
    }
    proof {
        assert(s@.take(n as int) =~= s@);
    }
    r
}

/// The file name without its extension, as `Path::file_stem` gives it.
pub open spec fn file_stem_of(path: Seq<char>) -> Option<Seq<char>> {
    match file_name_of(path) {
        None => None,
        Some(name) => {
            let p = find_last(name, '.');
            if p <= 0 {
                Some(name)
            } else {
                Some(name.take(p))
            }
        },
    }
}

/// The file name without its extension, as `Path::file_stem` gives it.
pub fn file_stem(path: &str) -> (stem: Option<&str>)
    ensures
        opt_view_str(stem) == file_stem_of(path@),
{
    match file_name(path) {
        None => None,
        Some(name) => {
            proof {
                lemma_find_last_bounds(name@, '.');
            }
            match last_dot(name) {
                Some(p) if p > 0 => {
                    assert(name@.subrange(0, p as int) =~= name@.take(p as int));
                    Some(name.substring_char(0, p))
                },
                _ => Some(name),
            }
        },
    }
}

/// The name an imported file is stored under: the snapshot id, and the
/// source's extension in lower case when it has a non-empty one.
pub open spec fn imported_file_name_of(id: Seq<char>, source: Seq<char>) -> Seq<char> {
    match extension_of(source) {
        Some(ext) => if ext.len() > 0 {
            id + "."@ + ascii_lower_seq(ext)
        } else {
            id
        },
        None => id,
    }
}

pub fn imported_file_name(id: &str, source_path: &str) -> (name: String)
    ensures
        name@ == imported_file_name_of(id@, source_path@),
{
    match extension(source_path) {
        Some(ext) => if ext.unicode_len() > 0 {
            owned(id).concat(".").concat(ascii_lowercase(ext).as_str())
        } else {
            owned(id)
        },
        None => owned(id),
    }
}

/// The name a captured screenshot is stored under: the snapshot id, a dot,
/// and the source's extension in lower case, `png` when it has none.
pub open spec fn captured_file_name_of(id: Seq<char>, source: Seq<char>) -> Seq<char> {
    match extension_of(source) {
        Some(ext) => id + "."@ + ascii_lower_seq(ext),
        None => id + ".png"@,
    }
}

pub fn captured_file_name(id: &str, source_path: &str) -> (name: String)
    ensures
        name@ == captured_file_name_of(id@, source_path@),
{
    match extension(source_path) {
        Some(ext) => owned(id).concat(".").concat(ascii_lowercase(ext).as_str()),
        None => owned(id).concat(".png"),
    }
}

/// The title an imported image gets: its file stem, unless that is missing
/// or blank.
pub open spec fn imported_title_of(source: Seq<char>) -> Seq<char> {
    match file_stem_of(source) {
        Some(stem) => if trim_seq(stem).len() > 0 {
            stem
        } else {
            "Imported image"@
        },
        None => "Imported image"@,
    }
}

pub fn imported_title(source_path: &str) -> (title: String)
    ensures
        title@ == imported_title_of(source_path@),
{
    match file_stem(source_path) {
        Some(stem) => if trim(stem).unicode_len() > 0 {
            owned(stem)
        } else {
            owned("Imported image")
        },
        None => owned("Imported image"),
    }
}

/// The source recorded for a screenshot that Blink captured.
pub const CAPTURE_SOURCE: &'static str = "Captured with XDG Desktop Portal";

/// An image snapshot about to be created for a file stored at
/// `stored_path`: its MIME type is inferred from the file's extension.
pub fn new_image_snapshot(
    id: SnapshotId,
    title: String,
    stored_path: String,
    source: Option<String>,
) -> (s: NewSnapshot)
    ensures
        s.id == id,
        s.title@ == title@,
        s.kind == SnapshotKind::Image,
        opt_view_string(s.source) == opt_view_string(source),
        opt_view_string(s.file_path) == Some(stored_path@),
        opt_view_string(s.mime_type) == (match extension_of(stored_path@) {
            None => None,
            Some(ext) => mime_for_extension(ascii_lower_seq(ext)),
        }),
        s.tags@.len() == 0,
{
    let mime = infer_mime_type(stored_path.as_str());
    let mut s = NewSnapshot::new(id, title, SnapshotKind::Image);
    s.source = source;
    s.file_path = Some(stored_path);
    s.mime_type = mime;
    s
}

} // verus!
