//! Names on disk: download file names and paths, audio file extensions,
//! the cache name of a link, the data files of the application, and local
//! audio links turned back into paths.
use vstd::prelude::*;
use crate::json::{get, get_member, parse_json, parsed_json, Json};
use crate::markup::lit;
use crate::songs::opt_view;
use crate::text::{
    append_chars, ascii_lower, ascii_lower_exec, chars_of, clone_chars, contains, contains_exec, ends_with,
    ends_with_exec, find, find_exec, is_ascii_alphanumeric, is_ascii_alphanumeric_exec,
    lemma_find_from, slice_chars, starts_with, starts_with_exec, string_of, trim, trim_exec,
    trim_set, trim_set_exec,
};

verus! {

/// A character that cannot stand in a file name on common systems.
pub open spec fn is_reserved_in_file_name(c: char) -> bool {
    c == '<' || c == '>' || c == ':' || c == '"' || c == '/' || c == '\\' || c == '|' || c == '?'
        || c == '*'
}

/// `s` with every reserved character replaced by `_`.
pub open spec fn underscored(s: Seq<char>) -> Seq<char> {
    s.map_values(
        |c: char|
            if is_reserved_in_file_name(c) {
                '_'
            } else {
                c
            },
    )
}

/// A safe file name: reserved characters become `_`, surrounding spaces and
/// dots go, and what is left empty becomes `music`.
pub open spec fn safe_file_name(value: Seq<char>) -> Seq<char> {
    let out = trim_set(trim(underscored(value)), seq!['.']);
    if out.len() == 0 {
        "music"@
    } else {
        out
    }
}

/// Makes a text safe as a file name (see `safe_file_name`).
pub fn sanitize_file_name(value: &str) -> (r: String)
    ensures
        r@ == safe_file_name(value@),
{
    let v = chars_of(value);
    let mut mapped: Vec<char> = Vec::new();
    let mut i: usize = 0;
    while i < v.len()
        invariant
            i <= v.len(),
            v@ == value@,
            mapped@ == underscored(v@.take(i as int)),
        decreases v.len() - i,
    {
        let c = v[i];
        let d = if c == '<' || c == '>' || c == ':' || c == '"' || c == '/' || c == '\\' || c
            == '|' || c == '?' || c == '*' {
            '_'
        } else {
            c
        };
        mapped.push(d);
        assert(underscored(v@.take(i + 1)) =~= underscored(v@.take(i as int)).push(d));
        i += 1;
    }
    assert(v@.take(v.len() as int) =~= v@);
    let dots: Vec<char> = vec!['.'];
    assert(dots@ =~= seq!['.']);
    let out = trim_set_exec(&trim_exec(&mapped), &dots);
    if out.len() == 0 {
        string_of(&lit("music"))
    } else {
        string_of(&out)
    }
}

/// The ASCII letters and digits of `s`, in order.
pub open spec fn alnum_only(s: Seq<char>) -> Seq<char>
    decreases s.len(),
{
    if s.len() == 0 {
        s
    } else if is_ascii_alphanumeric(s.last()) {
        alnum_only(s.drop_last()).push(s.last())
    } else {
        alnum_only(s.drop_last())
    }
}

fn alnum_only_chars(s: &Vec<char>) -> (r: Vec<char>)
    ensures
        r@ == alnum_only(s@),
{
    let mut out: Vec<char> = Vec::new();
    let mut i: usize = 0;
    assert(s@.take(0) =~= Seq::<char>::empty());
    while i < s.len()
        invariant
            i <= s.len(),
            out@ == alnum_only(s@.take(i as int)),
        decreases s.len() - i,
    {
        assert(s@.take(i + 1).drop_last() =~= s@.take(i as int));
        if is_ascii_alphanumeric_exec(s[i]) {
            out.push(s[i]);
        }
        i += 1;
    }
    assert(s@.take(i as int) =~= s@);
    out
}

/// An audio extension: the ASCII letters and digits of `value` in lower
/// case, `mp3` when there are none.
pub open spec fn audio_extension(value: Seq<char>) -> Seq<char> {
    let v = ascii_lower(alnum_only(value));
    if v.len() == 0 {
        "mp3"@
    } else {
        v
    }
}

/// Keeps the letters and digits of an extension, in lower case (`mp3` when
/// none are left).
pub fn sanitize_audio_extension(value: String) -> (r: String)
    ensures
        r@ == audio_extension(value@),
{
    let v = ascii_lower_exec(&alnum_only_chars(&chars_of(value.as_str())));
    if v.len() == 0 {
        string_of(&lit("mp3"))
    } else {
        string_of(&v)
    }
}

/// The leading dots of `s` removed.
pub open spec fn without_leading_dots(s: Seq<char>) -> Seq<char>
    decreases s.len(),
{
    if s.len() > 0 && s[0] == '.' {
        without_leading_dots(s.skip(1))
    } else {
        s
    }
}

/// The extension of a download: the trimmed format without leading dots,
/// read as `audio_extension`.
pub open spec fn download_extension(format: Seq<char>) -> Seq<char> {
    audio_extension(without_leading_dots(trim(format)))
}

/// The extension to save a download under (see `download_extension`).
pub fn normalized_extension(format: &str) -> (r: String)
    ensures
        r@ == download_extension(format@),
{
    let t = trim_exec(&chars_of(format));
    let mut i: usize = 0;
    assert(t@.skip(0) =~= t@);
    while i < t.len() && t[i] == '.'
        invariant
            i <= t.len(),
            without_leading_dots(t@) == without_leading_dots(t@.skip(i as int)),
        decreases t.len() - i,
    {
        assert(t@.skip(i as int).skip(1) =~= t@.skip(i + 1));
        i += 1;
    }
    let len = t.len();
    let rest = slice_chars(&t, i, len);
    assert(rest@ =~= t@.skip(i as int));
    sanitize_audio_extension(string_of(&rest))
}

/// The file name of a download: `Title - Artist.ext`, each part made safe.
pub open spec fn download_file_name(title: Seq<char>, artist: Seq<char>, format: Seq<char>) -> Seq<
    char,
> {
    safe_file_name(title) + " - "@ + safe_file_name(artist) + "."@ + safe_file_name(
        download_extension(format),
    )
}

/// Whether `c` ends a directory on a platform whose separator is `sep`:
/// the separator itself, and on Windows (separator `\`) also `/`.
pub open spec fn is_separator(c: char, sep: char) -> bool {
    c == sep || (sep == '\\' && c == '/')
}

/// Whether `dir` is, on Windows (separator `\`), a bare drive such as `C:`.
pub open spec fn bare_drive(dir: Seq<char>, sep: char) -> bool {
    sep == '\\' && dir.len() == 2 && dir[1] == ':' && (('a' <= dir[0] && dir[0] <= 'z') || ('A'
        <= dir[0] && dir[0] <= 'Z'))
}

/// `dir` joined with the relative name `name`, as `Path::join` joins them
/// on a platform whose separator is `sep`: no separator is added after an
/// empty directory, one that already ends in a separator, or (on Windows)
/// a bare drive such as `C:`.
pub open spec fn joined_path(dir: Seq<char>, name: Seq<char>, sep: char) -> Seq<char> {
    if dir.len() == 0 || is_separator(dir.last(), sep) || bare_drive(dir, sep) {
        dir + name
    } else {
        dir + seq![sep] + name
    }
}

/// `dir` joined with `name` by `sep` (see `joined_path`).
pub fn join_path(dir: &str, name: &str, sep: char) -> (r: String)
    ensures
        r@ == joined_path(dir@, name@, sep),
{
    let mut out = chars_of(dir);
    let n = out.len();
    let ends_in_separator = n > 0 && (out[n - 1] == sep || (sep == '\\' && out[n - 1] == '/'));
    let drive = sep == '\\' && n == 2 && out[1] == ':' && (('a' <= out[0] && out[0] <= 'z') || (
    'A' <= out[0] && out[0] <= 'Z'));
    if n > 0 && !ends_in_separator && !drive {
        out.push(sep);
    }
    append_chars(&mut out, &chars_of(name));
    string_of(&out)
}

/// Where a song is downloaded to in `dir` (see `download_file_name`);
/// `sep` is the platform's path separator.
pub fn target_download_path(dir: &str, title: &str, artist: &str, format: &str, sep: char) -> (r:
    String)
    ensures
        r@ == joined_path(dir@, download_file_name(title@, artist@, format@), sep),
{
    let ext = normalized_extension(format);
    let mut name = chars_of(sanitize_file_name(title).as_str());
    append_chars(&mut name, &lit(" - "));
    append_chars(&mut name, &chars_of(sanitize_file_name(artist).as_str()));
    append_chars(&mut name, &lit("."));
    append_chars(&mut name, &chars_of(sanitize_file_name(ext.as_str()).as_str()));
    let file = string_of(&name);
    join_path(dir, file.as_str(), sep)
}

/// The name of the favourites file.
pub fn favorites_file_name() -> (r: String)
    ensures
        r@ == "favorites.json"@,
{
    string_of(&lit("favorites.json"))
}

/// The download folder under a home folder: `Downloads/MikuTunes`.
pub fn default_download_dir(home: &str, sep: char) -> (r: String)
    ensures
        r@ == joined_path(joined_path(home@, "Downloads"@, sep), "MikuTunes"@, sep),
{
    let d = join_path(home, "Downloads", sep);
    join_path(d.as_str(), "MikuTunes", sep)
}

/// The application's folder under the configuration folder.
pub fn fallback_data_dir(config_base: &str, sep: char) -> (r: String)
    ensures
        r@ == joined_path(config_base@, "MikuTunes"@, sep),
{
    join_path(config_base, "MikuTunes", sep)
}

/// The settings file: `MikuTunes/settings.json` under the configuration
/// folder.
pub fn settings_path(config_base: &str, sep: char) -> (r: String)
    ensures
        r@ == joined_path(joined_path(config_base@, "MikuTunes"@, sep), "settings.json"@, sep),
{
    let d = fallback_data_dir(config_base, sep);
    join_path(d.as_str(), "settings.json", sep)
}

/// The favourites file beside the application.
pub fn portable_favorites_path(portable_dir: &str, sep: char) -> (r: String)
    ensures
        r@ == joined_path(portable_dir@, "favorites.json"@, sep),
{
    join_path(portable_dir, "favorites.json", sep)
}

/// The favourites file in the application's configuration folder.
pub fn fallback_favorites_path(config_base: &str, sep: char) -> (r: String)
    ensures
        r@ == joined_path(joined_path(config_base@, "MikuTunes"@, sep), "favorites.json"@, sep),
{
    let d = fallback_data_dir(config_base, sep);
    join_path(d.as_str(), "favorites.json", sep)
}

/// Which favourites file is used: the one beside the application if it
/// exists, else the one in the configuration folder if it exists, else the
/// one beside the application.
pub fn favorites_storage_path(
    portable: String,
    portable_exists: bool,
    fallback: String,
    fallback_exists: bool,
) -> (r: String)
    ensures
        r@ == if !portable_exists && fallback_exists {
            fallback@
        } else {
            portable@
        },
{
    if portable_exists {
        portable
    } else if fallback_exists {
        fallback
    } else {
        portable
    }
}


/// What `urlencoding::decode` gives for a text: the text with its `%xx`
/// escapes decoded, or nothing when the bytes so decoded are not UTF-8.
pub uninterp spec fn url_decoded(encoded: Seq<char>) -> Option<Seq<char>>;

/// `urlencoding::decode`, taken to an owned string: the contract names the
/// result `url_decoded` of the text, and states what its source shows of a
/// text without `%`: it comes back unchanged.
#[verifier::external_body]
fn percent_decode(encoded: &str) -> (r: Option<String>)
    ensures
        opt_view(r) == url_decoded(encoded@),
        !contains(encoded@, "%"@) ==> opt_view(r) == Some(encoded@),
{
    match urlencoding::decode(encoded) {
        Ok(decoded) => Some(decoded.into_owned()),
        Err(_) => None,
    }
}

/// `s` without any number of leading copies of `p` (`trim_start_matches`).
pub open spec fn strip_all(s: Seq<char>, p: Seq<char>) -> Seq<char>
    decreases s.len(),
{
    if p.len() > 0 && starts_with(s, p) {
        strip_all(s.skip(p.len() as int), p)
    } else {
        s
    }
}

pub fn strip_all_chars(s: &Vec<char>, p: &Vec<char>) -> (r: Vec<char>)
    ensures
        r@ == strip_all(s@, p@),
{
    let mut rest = clone_chars(s);
    if p.len() == 0 {
        return rest;
    }
    while starts_with_exec(&rest, p)
        invariant
            p.len() > 0,
            strip_all(rest@, p@) == strip_all(s@, p@),
        decreases rest.len(),
    {
        let len = rest.len();
        let next = slice_chars(&rest, p.len(), len);
        assert(next@ =~= rest@.skip(p.len() as int));
        rest = next;
    }
    rest
}

/// The local file a player link points to: links of the local asset
/// server and `file:` links are decoded (the `file:///` form keeps its
/// leading `/`); absolute and drive paths stand as they are; anything else,
/// or a link that does not decode, is no local file.
pub open spec fn local_audio_path(url: Seq<char>) -> Option<Seq<char>> {
    let t = trim(url);
    if t.len() == 0 {
        None
    } else if starts_with(t, "http://asset.localhost/"@) {
        url_decoded(strip_all(t, "http://asset.localhost/"@))
    } else if starts_with(t, "https://asset.localhost/"@) {
        url_decoded(strip_all(t, "https://asset.localhost/"@))
    } else if starts_with(t, "asset://localhost/"@) {
        url_decoded(strip_all(t, "asset://localhost/"@))
    } else if starts_with(t, "file://localhost/"@) {
        url_decoded(strip_all(t, "file://localhost/"@))
    } else if starts_with(t, "file:///"@) {
        url_decoded(strip_all(t, "file://"@))
    } else if starts_with(t, "/"@) || starts_with(t, "\\\\"@) || contains(t, ":\\"@) {
        Some(t)
    } else {
        None
    }
}

fn decode_after(t: &Vec<char>, prefix: &str) -> (r: Option<String>)
    ensures
        match url_decoded(strip_all(t@, prefix@)) {
            Some(d) => r matches Some(s) && s@ == d,
            None => r is None,
        },
{
    let encoded = string_of(&strip_all_chars(t, &lit(prefix)));
    percent_decode(encoded.as_str())
}

/// The local file a player link points to (see `local_audio_path`).
pub fn resolve_local_audio_path(url: &str) -> (r: Option<String>)
    ensures
        match local_audio_path(url@) {
            Some(p) => r matches Some(s) && s@ == p,
            None => r is None,
        },
{
    let t = trim_exec(&chars_of(url));
    if t.len() == 0 {
        None
    } else if starts_with_exec(&t, &lit("http://asset.localhost/")) {
        decode_after(&t, "http://asset.localhost/")
    } else if starts_with_exec(&t, &lit("https://asset.localhost/")) {
        decode_after(&t, "https://asset.localhost/")
    } else if starts_with_exec(&t, &lit("asset://localhost/")) {
        decode_after(&t, "asset://localhost/")
    } else if starts_with_exec(&t, &lit("file://localhost/")) {
        decode_after(&t, "file://localhost/")
    } else if starts_with_exec(&t, &lit("file:///")) {
        decode_after(&t, "file://")
    } else if starts_with_exec(&t, &lit("/")) || starts_with_exec(&t, &lit("\\\\"))
        || contains_exec(&t, &lit(":\\")) {
        Some(string_of(&t))
    } else {
        None
    }
}


/// Where a song to download comes from: a local file to copy, or a link
/// to fetch.
pub enum DownloadSource {
    Local(String),
    Remote(String),
}

/// The answer when a song to download has a blank link.
pub open spec fn blank_link_error() -> Seq<char> {
    "播放链接为空，无法下载"@
}

/// Where a song to download comes from: a blank link is refused; a link to
/// a local file (see `local_audio_path`) is copied; any other is fetched as
/// it stands.
pub fn download_source(url: &str) -> (r: Result<DownloadSource, String>)
    ensures
        trim(url@).len() == 0 ==> (r matches Err(e) && e@ == blank_link_error()),
        trim(url@).len() > 0 ==> match local_audio_path(url@) {
            Some(p) => r matches Ok(DownloadSource::Local(s)) && s@ == p,
            None => r matches Ok(DownloadSource::Remote(u)) && u@ == url@,
        },
{
    if trim_exec(&chars_of(url)).len() == 0 {
        return Err("播放链接为空，无法下载".to_string());
    }
    match resolve_local_audio_path(url) {
        Some(p) => Ok(DownloadSource::Local(p)),
        None => Ok(DownloadSource::Remote(string_of(&chars_of(url)))),
    }
}

/// The download folder the settings file names: its `download_dir` string
/// when the file was read, is JSON and that string is not blank; else the
/// default folder.
pub open spec fn configured_dir(settings: Option<Seq<char>>, default: Seq<char>) -> Seq<char> {
    match settings {
        Some(text) => match parsed_json(text) {
            Some(v) => match get(v, "download_dir"@) {
                Some(Json::Str(d)) => if trim(d@).len() > 0 {
                    d@
                } else {
                    default
                },
                _ => default,
            },
            None => default,
        },
        None => default,
    }
}

/// The download folder the settings file names (see `configured_dir`);
/// `settings` is the file's text, when it could be read.
pub fn configured_download_dir(settings: Option<&str>, default: String) -> (r: String)
    ensures
        r@ == configured_dir(
            match settings {
                Some(t) => Some(t@),
                None => None,
            },
            default@,
        ),
{
    let text = match settings {
        Some(t) => t,
        None => {
            return default;
        },
    };
    match parse_json(text) {
        Some(v) => match get_member(&v, "download_dir") {
            Some(Json::Str(d)) => if trim_exec(&chars_of(d.as_str())).len() > 0 {
                d.clone()
            } else {
                default
            },
            _ => default,
        },
        None => default,
    }
}

/// A download folder the user typed: trimmed, refused when blank.
pub fn chosen_download_dir(path: &str) -> (r: Result<String, String>)
    ensures
        match r {
            Ok(d) => d@ == trim(path@) && d@.len() > 0,
            Err(m) => trim(path@).len() == 0 && m@ == "下载目录不能为空"@,
        },
{
    let t = trim_exec(&chars_of(path));
    if t.len() == 0 {
        Err("下载目录不能为空".to_string())
    } else {
        Ok(string_of(&t))
    }
}

} // verus!
