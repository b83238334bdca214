//! The icons of the colour themes: which files of a theme folder are icons,
//! and the order they are shown in.
use vstd::prelude::*;
use crate::markup::lit;
use crate::searchers::{parse_unsigned, parsed_unsigned};
use crate::text::{
    append_chars, ascii_lower, ascii_lower_exec, chars_of, contains_chars, seq_eq, starts_with,
    starts_with_exec, string_of, views,
};

verus! {

/// The extensions of the image files a theme may use.
pub open spec fn image_extensions() -> Seq<Seq<char>> {
    seq!["png"@, "jpg"@, "jpeg"@, "webp"@, "gif"@, "bmp"@, "svg"@, "avif"@]
}

/// A file (by its stem and extension) is an icon: its stem starts with
/// `icon` and its extension is an image one, both in any ASCII case.
pub open spec fn is_icon_file(stem: Seq<char>, ext: Seq<char>) -> bool {
    starts_with(ascii_lower(stem), "icon"@) && image_extensions().contains(ascii_lower(ext))
}

/// A stem without the `icon`s it starts with (`str::trim_start_matches`).
pub open spec fn without_icon_prefix(s: Seq<char>) -> Seq<char>
    decreases s.len(),
{
    if s.len() >= 4 && starts_with(s, "icon"@) {
        without_icon_prefix(s.skip(4))
    } else {
        s
    }
}

/// The place of an icon: the number after its `icon` prefix, the largest
/// `usize` when there is none.
pub open spec fn icon_rank(stem: Seq<char>) -> nat {
    match parsed_unsigned(without_icon_prefix(stem), usize::MAX as nat) {
        Some(v) => v,
        None => usize::MAX as nat,
    }
}

/// Icon `a` is shown before icon `b`: a smaller place, or the same place
/// and listed earlier.
pub open spec fn icon_before(files: Seq<(String, String)>, a: int, b: int) -> bool {
    icon_rank(files[a].0@) < icon_rank(files[b].0@) || (icon_rank(files[a].0@) == icon_rank(
        files[b].0@,
    ) && a < b)
}

fn is_icon_exec(stem: &str, ext: &str) -> (r: bool)
    ensures
        r == is_icon_file(stem@, ext@),
{
    let s = ascii_lower_exec(&chars_of(stem));
    if !starts_with_exec(&s, &lit("icon")) {
        return false;
    }
    let e = ascii_lower_exec(&chars_of(ext));
    let mut exts: Vec<Vec<char>> = Vec::new();
    exts.push(lit("png"));
    exts.push(lit("jpg"));
    exts.push(lit("jpeg"));
    exts.push(lit("webp"));
    exts.push(lit("gif"));
    exts.push(lit("bmp"));
    exts.push(lit("svg"));
    exts.push(lit("avif"));
    assert(views(exts@) =~= image_extensions());
    contains_chars(&exts, &e)
}

fn icon_rank_exec(stem: &str) -> (r: usize)
    ensures
        r == icon_rank(stem@),
{
    let mut s = chars_of(stem);
    let icon = lit("icon");
    proof {
        reveal_strlit("icon");
    }
    while s.len() >= 4 && starts_with_exec(&s, &icon)
        invariant
            icon@ == "icon"@,
            without_icon_prefix(s@) == without_icon_prefix(stem@),
        decreases s.len(),
    {
        let len = s.len();
        let rest = crate::text::slice_chars(&s, 4, len);
        assert(rest@ =~= s@.skip(4));
        s = rest;
    }
    match parse_unsigned(&s, usize::MAX as u64) {
        Some(v) => v as usize,
        None => usize::MAX,
    }
}

/// The icons among a theme folder's files (each given by its stem and
/// extension), in the order they are shown: by place, files of the same
/// place in the order listed.  Each icon's position in `files` comes out
/// once.
pub fn order_theme_icons(files: &Vec<(String, String)>) -> (r: Vec<usize>)
    ensures
        forall|k: int|
            0 <= k < r@.len() ==> r@[k] < files@.len() && is_icon_file(
                files@[r@[k] as int].0@,
                files@[r@[k] as int].1@,
            ),
        forall|i: int|
            0 <= i < files@.len() && is_icon_file(files@[i].0@, files@[i].1@) ==> r@.contains(
                i as usize,
            ),
        forall|p: int, q: int|
            0 <= p < q < r@.len() ==> icon_before(files@, r@[p] as int, r@[q] as int),
{
    let mut keys: Vec<(usize, usize)> = Vec::new();
    let mut i: usize = 0;
    while i < files.len()
        invariant
            i <= files.len(),
            forall|k: int|
                0 <= k < keys@.len() ==> keys@[k].1 < i && is_icon_file(
                    files@[keys@[k].1 as int].0@,
                    files@[keys@[k].1 as int].1@,
                ) && keys@[k].0 == icon_rank(files@[keys@[k].1 as int].0@),
            forall|j: int|
                0 <= j < i && is_icon_file(files@[j].0@, files@[j].1@) ==> exists|k: int|
                    0 <= k < keys@.len() && keys@[k].1 == j,
            forall|p: int, q: int|
                0 <= p < q < keys@.len() ==> icon_before(
                    files@,
                    keys@[p].1 as int,
                    keys@[q].1 as int,
                ),
        decreases files.len() - i,
    {
        if is_icon_exec(files[i].0.as_str(), files[i].1.as_str()) {
            let rank = icon_rank_exec(files[i].0.as_str());
            let mut p: usize = 0;
            while p < keys.len() && keys[p].0 <= rank
                invariant
                    p <= keys.len(),
                    forall|k: int| 0 <= k < p ==> keys@[k].0 <= rank,
                decreases keys.len() - p,
            {
                p += 1;
            }
            let ghost old_keys = keys@;
            keys.insert(p, (rank, i));
            proof {
                assert forall|k: int|
                    0 <= k < keys@.len() implies keys@[k].1 < i + 1 && is_icon_file(
                    files@[keys@[k].1 as int].0@,
                    files@[keys@[k].1 as int].1@,
                ) && keys@[k].0 == icon_rank(files@[keys@[k].1 as int].0@) by {
                    if k < p {
                        assert(keys@[k] == old_keys[k]);
                    } else if k > p {
                        assert(keys@[k] == old_keys[k - 1]);
                    }
                }
                assert forall|j: int|
                    0 <= j < i + 1 && is_icon_file(files@[j].0@, files@[j].1@) implies exists|
                    k: int,
                | 0 <= k < keys@.len() && keys@[k].1 == j by {
                    if j == i {
                        assert(keys@[p as int].1 == j);
                    } else {
                        let k0 = choose|k: int| 0 <= k < old_keys.len() && old_keys[k].1 == j;
                        if k0 < p {
                            assert(keys@[k0].1 == j);
                        } else {
                            assert(keys@[k0 + 1].1 == j);
                        }
                    }
                }
                assert forall|a: int, b: int|
                    0 <= a < b < keys@.len() implies icon_before(
                    files@,
                    keys@[a].1 as int,
                    keys@[b].1 as int,
                ) by {
                    if b < p {
                        assert(keys@[a] == old_keys[a] && keys@[b] == old_keys[b]);
                    } else if b == p {
                        assert(keys@[a] == old_keys[a]);
                    } else if a == p {
                        assert(keys@[b] == old_keys[b - 1]);
                        if b - 1 > p {
                            assert(icon_before(
                                files@,
                                old_keys[p as int].1 as int,
                                old_keys[b - 1].1 as int,
                            ));
                        }
                    } else if a < p {
                        assert(keys@[a] == old_keys[a] && keys@[b] == old_keys[b - 1]);
                    } else {
                        assert(keys@[a] == old_keys[a - 1] && keys@[b] == old_keys[b - 1]);
                    }
                }
            }
        }
        i += 1;
    }
    let mut out: Vec<usize> = Vec::new();
    let mut k: usize = 0;
    while k < keys.len()
        invariant
            k <= keys.len(),
            out@.len() == k,
            forall|m: int| 0 <= m < k ==> out@[m] == keys@[m].1,
        decreases keys.len() - k,
    {
        out.push(keys[k].1);
        k += 1;
    }
    proof {
        assert forall|j: int|
            0 <= j < files@.len() && is_icon_file(files@[j].0@, files@[j].1@) implies out@.contains(
            j as usize,
        ) by {
            let k0 = choose|k: int| 0 <= k < keys@.len() && keys@[k].1 == j;
            assert(out@[k0] == j as usize);
        }
    }
    out
}


/// The largest theme image read, in bytes (8 MiB).
pub const MAX_THEME_IMAGE_BYTES: usize = 8388608;

/// The media type of an image by its extension, in any ASCII case.
pub open spec fn image_mime(ext: Seq<char>) -> Seq<char> {
    let e = ascii_lower(ext);
    if e == "jpg"@ || e == "jpeg"@ {
        "image/jpeg"@
    } else if e == "png"@ {
        "image/png"@
    } else if e == "webp"@ {
        "image/webp"@
    } else if e == "gif"@ {
        "image/gif"@
    } else if e == "bmp"@ {
        "image/bmp"@
    } else if e == "svg"@ {
        "image/svg+xml"@
    } else if e == "avif"@ {
        "image/avif"@
    } else {
        "application/octet-stream"@
    }
}

fn image_mime_exec(ext: &str) -> (r: String)
    ensures
        r@ == image_mime(ext@),
{
    let e = ascii_lower_exec(&chars_of(ext));
    let m = if seq_eq(&e, &lit("jpg")) || seq_eq(&e, &lit("jpeg")) {
        "image/jpeg"
    } else if seq_eq(&e, &lit("png")) {
        "image/png"
    } else if seq_eq(&e, &lit("webp")) {
        "image/webp"
    } else if seq_eq(&e, &lit("gif")) {
        "image/gif"
    } else if seq_eq(&e, &lit("bmp")) {
        "image/bmp"
    } else if seq_eq(&e, &lit("svg")) {
        "image/svg+xml"
    } else if seq_eq(&e, &lit("avif")) {
        "image/avif"
    } else {
        "application/octet-stream"
    };
    m.to_string()
}

/// The character of a six-bit value in the standard base64 alphabet
/// (`A`-`Z`, `a`-`z`, `0`-`9`, `+`, `/`).
pub open spec fn base64_digit(v: int) -> char {
    if v < 26 {
        (65 + v) as char
    } else if v < 52 {
        (97 + v - 26) as char
    } else if v < 62 {
        (48 + v - 52) as char
    } else if v == 62 {
        '+'
    } else {
        '/'
    }
}

/// The standard base64 text of some bytes (RFC 4648, with `=` padding):
/// each run of three bytes gives four characters of six bits each; a last
/// run of one or two bytes is padded with zero bits and `=`.
pub open spec fn base64_text(b: Seq<u8>) -> Seq<char>
    decreases b.len(),
{
    let x = if b.len() > 0 { b[0] as int } else { 0 };
    let y = if b.len() > 1 { b[1] as int } else { 0 };
    let z = if b.len() > 2 { b[2] as int } else { 0 };
    if b.len() == 0 {
        Seq::empty()
    } else if b.len() == 1 {
        seq![base64_digit(x / 4), base64_digit((x % 4) * 16), '=', '=']
    } else if b.len() == 2 {
        seq![base64_digit(x / 4), base64_digit((x % 4) * 16 + y / 16), base64_digit((y % 16) * 4), '=']
    } else {
        seq![
            base64_digit(x / 4),
            base64_digit((x % 4) * 16 + y / 16),
            base64_digit((y % 16) * 4 + z / 64),
            base64_digit(z % 64),
        ] + base64_text(b.skip(3))
    }
}

#[verifier::external_body]
fn encode_base64(bytes: &Vec<u8>) -> (r: String)
    requires
        bytes@.len() / 3 * 4 + 4 <= usize::MAX,
    ensures
        r@ == base64_text(bytes@),
{
    base64::Engine::encode(&base64::engine::general_purpose::STANDARD, bytes)
}

/// A theme image read as a `data:` link: refused when it is larger than
/// `MAX_THEME_IMAGE_BYTES`, else its media type (by extension) and its
/// bytes in base64.
pub open spec fn image_data_url(ext: Seq<char>, bytes: Seq<u8>) -> Result<Seq<char>, Seq<char>> {
    if bytes.len() > MAX_THEME_IMAGE_BYTES {
        Err("图片过大，请选择 8MB 以内的图片"@)
    } else {
        Ok("data:"@ + image_mime(ext) + ";base64,"@ + base64_text(bytes))
    }
}

/// A theme image read as a `data:` link (see `image_data_url`); `ext` is
/// the file's extension, empty when it has none.
pub fn theme_image_data_url(ext: &str, bytes: &Vec<u8>) -> (r: Result<String, String>)
    ensures
        match (r, image_data_url(ext@, bytes@)) {
            (Ok(a), Ok(b)) => a@ == b,
            (Err(a), Err(b)) => a@ == b,
            _ => false,
        },
{
    if bytes.len() > MAX_THEME_IMAGE_BYTES {
        return Err("图片过大，请选择 8MB 以内的图片".to_string());
    }
    let mut out = lit("data:");
    append_chars(&mut out, &chars_of(image_mime_exec(ext).as_str()));
    append_chars(&mut out, &lit(";base64,"));
    append_chars(&mut out, &chars_of(encode_base64(bytes).as_str()));
    Ok(string_of(&out))
}

} // verus!
