//! Downloads: task states, the output of the downloader process, the quick
//! file fingerprint, and where the downloader executable is looked for.

use vstd::prelude::*;
use crate::paths::{extension, extension_chars, file_name, file_name_chars, file_stem, file_stem_chars, join, join_chars, parent, parent_chars};
use crate::regexes::{regex_replaced, replace_all_matches};
use crate::scrape::{list_items, split_list};
use crate::text::{
    chars_of, concat, contains, contains_str, owned, same, slice, string_of, string_views, trim,
    trim_chars, views, decimal, decimal_chars, trim_str,
};
use crate::urls::{path_segments_of, url_path_segments};

verus! {

/// A download: its id, source URL, target directory and optional file name.
#[derive(Debug, Clone)]
pub struct DownloadTask {
    pub id: String,
    pub url: String,
    pub save_path: String,
    pub filename: Option<String>,
}

// ------------------------------------------------------------------
// States
// ------------------------------------------------------------------

/// English name of a task state code.
pub open spec fn status_name(code: i32) -> Seq<char> {
    if code == 0 {
        "queued"@
    } else if code == 1 {
        "preparing"@
    } else if code == 2 {
        "downloading"@
    } else if code == 3 {
        "merging"@
    } else if code == 4 {
        "scraping"@
    } else if code == 5 {
        "paused"@
    } else if code == 6 {
        "completed"@
    } else if code == 7 {
        "failed"@
    } else if code == 8 {
        "retrying"@
    } else if code == 9 {
        "cancelled"@
    } else {
        "unknown"@
    }
}

pub fn status_code_to_string(code: i32) -> (r: String)
    ensures
        r@ == status_name(code),
{
    let s = match code {
        0 => "queued",
        1 => "preparing",
        2 => "downloading",
        3 => "merging",
        4 => "scraping",
        5 => "paused",
        6 => "completed",
        7 => "failed",
        8 => "retrying",
        9 => "cancelled",
        _ => "unknown",
    };
    owned(s)
}

/// Chinese name of a task state code.
pub open spec fn status_name_zh(code: i32) -> Seq<char> {
    if code == 0 {
        "排队中"@
    } else if code == 1 {
        "准备中"@
    } else if code == 2 {
        "下载中"@
    } else if code == 3 {
        "合并中"@
    } else if code == 4 {
        "刮削中"@
    } else if code == 5 {
        "已暂停"@
    } else if code == 6 {
        "已完成"@
    } else if code == 7 {
        "失败"@
    } else if code == 8 {
        "重试中"@
    } else if code == 9 {
        "已取消"@
    } else {
        "未知"@
    }
}

pub fn status_code_to_chinese(code: i32) -> (r: String)
    ensures
        r@ == status_name_zh(code),
{
    let s = match code {
        0 => "排队中",
        1 => "准备中",
        2 => "下载中",
        3 => "合并中",
        4 => "刮削中",
        5 => "已暂停",
        6 => "已完成",
        7 => "失败",
        8 => "重试中",
        9 => "已取消",
        _ => "未知",
    };
    owned(s)
}

// ------------------------------------------------------------------
// Downloader output
// ------------------------------------------------------------------

/// The first character boundary of `bytes` at or after `i` (or the end).
pub open spec fn next_boundary(bytes: Seq<u8>, i: int) -> int
    decreases bytes.len() - i,
{
    if 0 <= i < bytes.len() && !vstd::utf8::is_char_boundary(bytes, i) {
        next_boundary(bytes, i + 1)
    } else {
        i
    }
}

/// The end of `bytes` that fits in `max` bytes, cut at a character boundary.
pub open spec fn tail_bytes(bytes: Seq<u8>, max: nat) -> Seq<u8> {
    if bytes.len() <= max {
        bytes
    } else {
        let start = next_boundary(bytes, bytes.len() - max);
        if start >= bytes.len() {
            Seq::empty()
        } else {
            bytes.skip(start)
        }
    }
}

/// Keeps at most the last `max` bytes of `s`, starting on a character (for a
/// bounded capture of the error output).
pub fn keep_tail(s: &str, max: usize) -> (r: String)
    ensures
        vstd::utf8::encode_utf8(r@) == tail_bytes(vstd::utf8::encode_utf8(s@), max as nat),
{
    let ghost b = vstd::utf8::encode_utf8(s@);
    let bytes = s.as_bytes();
    assert(bytes@ == b);
    let n = bytes.len();
    if n <= max {
        return owned(s);
    }
    let mut start: usize = n - max;
    while start < n && !s.is_char_boundary(start)
        invariant
            n - max <= start <= n,
            n == b.len(),
            b == vstd::utf8::encode_utf8(s@),
            next_boundary(b, (n - max) as int) == next_boundary(b, start as int),
        decreases n - start,
    {
        start += 1;
    }
    if start >= n {
        return String::new();
    }
    let (_, tail) = s.split_at(start);
    let r = owned(tail);
    assert(vstd::utf8::encode_utf8(tail@) =~= b.skip(start as int));
    r
}

proof fn lemma_next_boundary(bytes: Seq<u8>, i: int)
    requires
        0 <= i,
    ensures
        i <= next_boundary(bytes, i),
        i <= bytes.len() ==> next_boundary(bytes, i) <= bytes.len(),
    decreases bytes.len() - i,
{
    if 0 <= i < bytes.len() && !vstd::utf8::is_char_boundary(bytes, i) {
        lemma_next_boundary(bytes, i + 1);
    }
}

/// The kept tail of the error output fits in the limit and is the end of
/// what was captured.
pub proof fn lemma_tail_bytes_fits(bytes: Seq<u8>, max: nat)
    ensures
        tail_bytes(bytes, max).len() <= max,
        tail_bytes(bytes, max) == bytes.skip(bytes.len() - tail_bytes(bytes, max).len()),
{
    if bytes.len() <= max {
        assert(bytes.skip(0) =~= bytes);
    } else {
        lemma_next_boundary(bytes, bytes.len() - max);
        let start = next_boundary(bytes, bytes.len() - max);
        if start >= bytes.len() {
            assert(bytes.skip(bytes.len() as int) =~= Seq::<u8>::empty());
        }
    }
}

/// Separators of the downloader's output lines.
pub open spec fn line_breaks() -> Seq<char> {
    seq!['\n', '\r']
}

/// Position of the last line break of `s`.
pub open spec fn last_break(s: Seq<char>) -> Option<int>
    decreases s.len(),
{
    if s.len() == 0 {
        None
    } else if s.last() == '\n' || s.last() == '\r' {
        Some(s.len() - 1)
    } else {
        last_break(s.drop_last())
    }
}

proof fn lemma_last_break(s: Seq<char>)
    ensures
        last_break(s) matches Some(k) ==> 0 <= k < s.len(),
    decreases s.len(),
{
    if s.len() > 0 {
        lemma_last_break(s.drop_last());
    }
}

/// The complete lines of the pending output (trimmed, blank ones dropped)
/// and what is left after the last line break.
pub open spec fn output_split(s: Seq<char>) -> (Seq<Seq<char>>, Seq<char>) {
    match last_break(s) {
        None => (Seq::empty(), s),
        Some(k) => (list_items(s.take(k), line_breaks()), s.skip(k + 1)),
    }
}

/// Takes the complete lines out of the pending output of the downloader.
pub fn collect_output_segments(pending: &mut String) -> (r: Vec<String>)
    ensures
        string_views(r@) == output_split(old(pending)@).0,
        final(pending)@ == output_split(old(pending)@).1,
{
    let s = chars_of(pending.as_str());
    proof {
        lemma_last_break(s@);
    }
    let mut k: usize = s.len();
    assert(s@.take(k as int) =~= s@);
    while k > 0 && !(s[k - 1] == '\n' || s[k - 1] == '\r')
        invariant
            k <= s.len(),
            last_break(s@) == last_break(s@.take(k as int)),
        decreases k,
    {
        assert(s@.take(k as int).drop_last() =~= s@.take(k - 1));
        k -= 1;
    }
    if k == 0 {
        assert(last_break(s@.take(0)) is None);
        return Vec::new();
    }
    assert(last_break(s@) == Some(k - 1));
    let head = slice(&s, 0, k - 1);
    assert(head@ =~= s@.take(k - 1));
    let rest = slice(&s, k, s.len());
    assert(rest@ =~= s@.skip(k as int));
    let hs = string_of(&head);
    let mut seps: Vec<char> = Vec::new();
    seps.push('\n');
    seps.push('\r');
    assert(seps@ =~= line_breaks());
    let segments = split_list(hs.as_str(), &seps);
    *pending = string_of(&rest);
    segments
}

/// What stays pending after the complete lines are taken out holds no line
/// break and is the end of the pending output: no output is held back once
/// its line is complete.
pub proof fn lemma_output_rest_is_partial_line(s: Seq<char>)
    ensures
        forall|i: int| 0 <= i < output_split(s).1.len() ==> !line_breaks().contains(
            #[trigger] output_split(s).1[i],
        ),
        output_split(s).1 == s.skip(s.len() - output_split(s).1.len()),
    decreases s.len(),
{
    lemma_last_break(s);
    match last_break(s) {
        None => {
            lemma_no_break(s);
            assert(s.skip(0) =~= s);
        },
        Some(k) => {
            lemma_break_is_last(s);
            let rest = s.skip(k + 1);
            assert forall|i: int| 0 <= i < rest.len() implies !line_breaks().contains(#[trigger] rest[i]) by {
                assert(rest[i] == s[k + 1 + i]);
                assert(s[k + 1 + i] != '\n' && s[k + 1 + i] != '\r');
                if line_breaks().contains(rest[i]) {
                    let j = choose|j: int| 0 <= j < line_breaks().len() && line_breaks()[j] == rest[i];
                    assert(j == 0 || j == 1);
                }
            }
        },
    }
}

proof fn lemma_no_break(s: Seq<char>)
    requires
        last_break(s) is None,
    ensures
        forall|i: int| 0 <= i < s.len() ==> !line_breaks().contains(#[trigger] s[i]),
    decreases s.len(),
{
    if s.len() > 0 {
        lemma_no_break(s.drop_last());
        assert forall|i: int| 0 <= i < s.len() implies !line_breaks().contains(#[trigger] s[i]) by {
            if i < s.len() - 1 {
                assert(s[i] == s.drop_last()[i]);
            }
            if line_breaks().contains(s[i]) {
                let j = choose|j: int| 0 <= j < line_breaks().len() && line_breaks()[j] == s[i];
                assert(j == 0 || j == 1);
            }
        }
    }
}

proof fn lemma_break_is_last(s: Seq<char>)
    requires
        last_break(s) is Some,
    ensures
        last_break(s) matches Some(k) && 0 <= k < s.len() && (s[k] == '\n' || s[k] == '\r') && forall|i: int|
            k < i < s.len() ==> #[trigger] s[i] != '\n' && s[i] != '\r',
    decreases s.len(),
{
    assert(s.len() > 0);
    if !(s.last() == '\n' || s.last() == '\r') {
        let p = s.drop_last();
        assert(last_break(s) == last_break(p));
        lemma_break_is_last(p);
        let k = last_break(p).unwrap();
        assert(p[k] == s[k]);
        assert forall|i: int| k < i < s.len() implies #[trigger] s[i] != '\n' && s[i] != '\r' by {
            if i < s.len() - 1 {
                assert(s[i] == p[i]);
            }
        }
    }
}

/// The downloader has reached its merging / muxing stage.
pub open spec fn is_merging_line(line: Seq<char>) -> bool {
    contains(line, "调用ffmpeg合并中"@) || contains(line, "Muxing"@) || contains(line, "ffmpeg合并"@)
        || contains(line, "Merging"@) || contains(line, "二进制合并中"@)
}

pub fn is_nm3u8dl_merging(line: &str) -> (r: bool)
    ensures
        r == is_merging_line(line@),
{
    let v = chars_of(line);
    contains_str(&v, "调用ffmpeg合并中") || contains_str(&v, "Muxing") || contains_str(
        &v,
        "ffmpeg合并",
    ) || contains_str(&v, "Merging") || contains_str(&v, "二进制合并中")
}

/// ANSI escape sequences (CSI) in the downloader's output.
pub const ANSI_ESCAPE_PATTERN: &'static str = "\x1B\\[[0-?]*[ -/]*[@-~]";

/// The line without ANSI escape sequences (unchanged when the pattern does
/// not compile).
pub fn strip_ansi_escape_codes(line: &str) -> (r: String)
    ensures
        match regex_replaced(ANSI_ESCAPE_PATTERN@, line@, Seq::empty()) {
            Some(x) => r@ == x,
            None => r@ == line@,
        },
{
    proof {
        reveal_strlit("");
    }
    assert(""@ =~= Seq::<char>::empty());
    match replace_all_matches(ANSI_ESCAPE_PATTERN, line, "") {
        Some(x) => x,
        None => owned(line),
    }
}

// ------------------------------------------------------------------
// Quick fingerprint
// ------------------------------------------------------------------

/// Adler-32 state after `data`, starting from `start`: `(a, b)` kept modulo
/// 65521 and packed as `b * 65536 + a`.
pub open spec fn adler_ab(data: Seq<u8>, a0: int, b0: int) -> (int, int)
    decreases data.len(),
{
    if data.len() == 0 {
        (a0, b0)
    } else {
        let (a, b) = adler_ab(data.drop_last(), a0, b0);
        let a2 = (a + data.last()) % 65521;
        (a2, (b + a2) % 65521)
    }
}

pub open spec fn adler(data: Seq<u8>, start: u32) -> int {
    let (a, b) = adler_ab(data, (start % 65536) as int, ((start / 65536) % 65536) as int);
    b * 65536 + a
}

proof fn lemma_adler_bounds(data: Seq<u8>, a0: int, b0: int)
    requires
        0 <= a0 < 65536,
        0 <= b0 < 65536,
    ensures
        data.len() > 0 ==> 0 <= adler_ab(data, a0, b0).0 < 65521 && 0 <= adler_ab(data, a0, b0).1 < 65521,
        0 <= adler_ab(data, a0, b0).0 < 65536,
        0 <= adler_ab(data, a0, b0).1 < 65536,
    decreases data.len(),
{
    if data.len() > 0 {
        lemma_adler_bounds(data.drop_last(), a0, b0);
    }
}

/// The Adler-32 checksum of `data`, continuing from `start`.
pub fn adler32(data: &[u8], start: u32) -> (r: u32)
    ensures
        r as int == adler(data@, start),
{
    let mut a: u32 = start & 0xFFFF;
    let mut b: u32 = (start >> 16) & 0xFFFF;
    assert(start & 0xFFFF == start % 65536) by (bit_vector);
    assert((start >> 16) & 0xFFFF == (start / 65536) % 65536) by (bit_vector);
    let ghost a0 = a as int;
    let ghost b0 = b as int;
    let mut i: usize = 0;
    while i < data.len()
        invariant
            i <= data.len(),
            0 <= a0 < 65536 && 0 <= b0 < 65536,
            a0 == (start % 65536) as int,
            b0 == ((start / 65536) % 65536) as int,
            (a as int, b as int) == adler_ab(data@.take(i as int), a0, b0),
            a < 65536 && b < 65536,
        decreases data.len() - i,
    {
        assert(data@.take(i + 1).drop_last() =~= data@.take(i as int));
        a = (a + data[i] as u32) % 65521;
        b = (b + a) % 65521;
        i += 1;
    }
    assert(data@.take(data.len() as int) =~= data@);
    assert(b < 65536 && a < 65536);
    let r = (b << 16) | a;
    assert(b < 65536 && a < 65536 ==> (b << 16) | a == b * 65536 + a) by (bit_vector);
    r
}

/// Byte `i` (little-endian) of `x`.
pub open spec fn le_byte(x: u64, i: u64) -> u8 {
    ((x >> (8 * i)) & 0xff) as u8
}

pub open spec fn le_bytes(x: u64) -> Seq<u8> {
    seq![
        le_byte(x, 0),
        le_byte(x, 1),
        le_byte(x, 2),
        le_byte(x, 3),
        le_byte(x, 4),
        le_byte(x, 5),
        le_byte(x, 6),
        le_byte(x, 7),
    ]
}

fn le_bytes_of(x: u64) -> (r: Vec<u8>)
    ensures
        r@ == le_bytes(x),
{
    let mut v: Vec<u8> = Vec::new();
    v.push(((x >> 0u64) & 0xff) as u8);
    v.push(((x >> 8u64) & 0xff) as u8);
    v.push(((x >> 16u64) & 0xff) as u8);
    v.push(((x >> 24u64) & 0xff) as u8);
    v.push(((x >> 32u64) & 0xff) as u8);
    v.push(((x >> 40u64) & 0xff) as u8);
    v.push(((x >> 48u64) & 0xff) as u8);
    v.push(((x >> 56u64) & 0xff) as u8);
    assert(v@ =~= le_bytes(x));
    v
}

/// Size of the blocks read at each end of a file.
pub const HASH_BLOCK: u64 = 4096;

/// Where the second block of a file is read: after the first block for files
/// under 8 KiB, else the last 4 KiB; none for files of at most 4 KiB.
pub open spec fn tail_offset(len: u64) -> Option<u64> {
    if len > 4096 {
        Some(
            if len < 8192 {
                4096
            } else {
                (len - 4096) as u64
            },
        )
    } else {
        None
    }
}

pub fn fast_hash_tail_offset(len: u64) -> (r: Option<u64>)
    ensures
        r == tail_offset(len),
{
    if len > 4096 {
        Some(
            if len < 8192 {
                4096
            } else {
                len - 4096
            },
        )
    } else {
        None
    }
}

/// The fingerprint of a file of `len` bytes whose first block is `head` and
/// whose second block (see `tail_offset`) is `tail`: Adler-32 from 1 over the
/// little-endian length, then the blocks.
pub open spec fn fast_hash(len: u64, head: Seq<u8>, tail: Option<Seq<u8>>) -> int {
    let h1 = adler(le_bytes(len), 1) as u32;
    let h2 = adler(head, h1) as u32;
    match tail {
        Some(t) => adler(t, h2),
        None => h2 as int,
    }
}

/// Lower-case hexadecimal digit of `n < 16`.
pub open spec fn hex_lower(n: u32) -> char {
    if n < 10 {
        ((n + 48) as u8) as char
    } else {
        ((n + 87) as u8) as char
    }
}

/// `x` as eight lower-case hexadecimal digits (`{:08x}`).
pub open spec fn hex8(x: u32) -> Seq<char> {
    Seq::new(8, |i: int| hex_lower(((x as int / pow16(7 - i)) % 16) as u32))
}

pub open spec fn pow16(n: int) -> int
    decreases n,
{
    if n <= 0 {
        1
    } else {
        16 * pow16(n - 1)
    }
}

fn hex_char_lower(n: u32) -> (r: char)
    requires
        n < 16,
    ensures
        r == hex_lower(n),
{
    if n < 10 {
        let b: u8 = (n + 48) as u8;
        b as char
    } else {
        let b: u8 = (n + 87) as u8;
        b as char
    }
}

fn hex8_of(x: u32) -> (r: String)
    ensures
        r@ == hex8(x),
{
    let mut v: Vec<char> = Vec::new();
    let mut k: u32 = 0;
    let mut div: u32 = 0x1000_0000;
    assert(pow16(7) == 0x1000_0000) by {
        reveal_with_fuel(pow16, 8);
    }
    while k < 8
        invariant
            k <= 8,
            div as int == pow16(7 - k as int),
            v@ =~= hex8(x).take(k as int),
        decreases 8 - k,
    {
        assert(pow16(7 - k as int) >= 1) by {
            lemma_pow16_pos(7 - k as int);
        }
        let d = (x / div) % 16;
        v.push(hex_char_lower(d));
        assert(v@ =~= hex8(x).take(k + 1));
        if k < 7 {
            assert(pow16(7 - k as int) == 16 * pow16(7 - (k + 1) as int));
            div = div / 16;
        }
        k += 1;
    }
    assert(hex8(x).take(8) =~= hex8(x));
    string_of(&v)
}

proof fn lemma_pow16_pos(n: int)
    ensures
        pow16(n) >= 1,
    decreases n,
{
    if n > 0 {
        lemma_pow16_pos(n - 1);
    }
}

/// The fingerprint text of a file: `0` for an empty file, else the checksum
/// as eight hexadecimal digits.
pub fn fast_hash_hex(len: u64, head: &[u8], tail: Option<&[u8]>) -> (r: String)
    ensures
        len == 0 ==> r@ == "0"@,
        len != 0 ==> r@ == hex8(
            fast_hash(
                len,
                head@,
                match tail {
                    Some(t) => Some(t@),
                    None => None,
                },
            ) as u32,
        ),
{
    if len == 0 {
        return owned("0");
    }
    let lb = le_bytes_of(len);
    let h1 = adler32(lb.as_slice(), 1);
    let h2 = adler32(head, h1);
    let h = match tail {
        Some(t) => adler32(t, h2),
        None => h2,
    };
    hex8_of(h)
}

// ------------------------------------------------------------------
// File name of a download URL
// ------------------------------------------------------------------

/// The last path segment of a URL, when it parses and the segment is not
/// empty.
pub open spec fn segments_file_name(segs: Option<Seq<Seq<char>>>) -> Option<Seq<char>> {
    match segs {
        Some(segs) => if segs.len() > 0 && segs.last().len() > 0 {
            Some(segs.last())
        } else {
            None
        },
        None => None,
    }
}

/// The file name of a URL: its last path segment, when not empty.
pub open spec fn url_file_name(url: Seq<char>) -> Option<Seq<char>> {
    segments_file_name(url_path_segments(url))
}

/// The file name given the path segments of a URL (`None`: the URL has no
/// path segments).
pub fn file_name_from_segments(segs: &Option<Vec<String>>) -> (r: Option<String>)
    ensures
        match segments_file_name(
            match *segs {
                Some(v) => Some(string_views(v@)),
                None => None,
            },
        ) {
            Some(n) => r matches Some(x) && x@ == n,
            None => r is None,
        },
{
    match segs {
        Some(segs) => {
            if segs.len() > 0 && !segs[segs.len() - 1].as_str().is_empty() {
                assert(string_views(segs@).last() == segs@[segs.len() - 1]@);
                Some(segs[segs.len() - 1].clone())
            } else {
                None
            }
        },
        None => None,
    }
}

pub fn extract_filename_from_url(url: &str) -> (r: Option<String>)
    ensures
        match url_file_name(url@) {
            Some(n) => r matches Some(x) && x@ == n,
            None => r is None,
        },
{
    let segs = path_segments_of(url);
    file_name_from_segments(&segs)
}

// ------------------------------------------------------------------
// Downloader executable
// ------------------------------------------------------------------

/// The operating system the downloader runs on.
#[derive(Debug, Clone, Copy, PartialEq, Eq, Structural)]
pub enum TargetOs {
    Windows,
    MacOs,
    Linux,
    Other,
}

/// `s` without consecutive repeated elements (`Vec::dedup`).
pub open spec fn dedup_runs(s: Seq<Seq<char>>) -> Seq<Seq<char>>
    decreases s.len(),
{
    if s.len() == 0 {
        s
    } else {
        let r = dedup_runs(s.drop_last());
        if s.len() >= 2 && s[s.len() - 2] == s.last() {
            r
        } else {
            r.push(s.last())
        }
    }
}

fn dedup_strings(v: &Vec<Vec<char>>) -> (r: Vec<String>)
    ensures
        string_views(r@) == dedup_runs(views(v@)),
{
    let ghost vv = views(v@);
    let mut out: Vec<String> = Vec::new();
    let mut i: usize = 0;
    while i < v.len()
        invariant
            i <= v.len(),
            vv == views(v@),
            string_views(out@) == dedup_runs(vv.take(i as int)),
        decreases v.len() - i,
    {
        assert(vv.take(i + 1).drop_last() =~= vv.take(i as int));
        assert(vv[i as int] == v@[i as int]@);
        let dup = i >= 1 && same(&v[i - 1], &v[i]);
        if i >= 1 {
            assert(vv[i - 1] == v@[i - 1]@);
            assert(vv.take(i + 1)[i - 1] == vv[i - 1]);
        }
        if !dup {
            let ghost before = string_views(out@);
            out.push(string_of(&v[i]));
            assert(string_views(out@) =~= before.push(vv[i as int]));
        }
        i += 1;
    }
    assert(vv.take(v.len() as int) =~= vv);
    out
}

/// `s` with every `\` replaced by `/`.
pub open spec fn forward_slashes(s: Seq<char>) -> Seq<char> {
    s.map_values(|c: char| if c == '\\' { '/' } else { c })
}

/// The relative paths at which the downloader `path` is looked for on `os`:
/// its stem with the platform suffix, then the plain stem (Windows: with
/// `.exe`), in the directory of the path (backslashes read as slashes),
/// consecutive repeats removed.
pub open spec fn executable_candidates(path: Seq<char>, os: TargetOs) -> Seq<Seq<char>> {
    let n = forward_slashes(path);
    let dir = match parent(n) {
        Some(d) => d,
        None => Seq::empty(),
    };
    let stem = match file_stem(n) {
        Some(s) => s,
        None => path,
    };
    dedup_runs(
        match os {
            TargetOs::Windows => if extension(n) == Some("exe"@) {
                seq![n]
            } else {
                seq![join(dir, stem + ".exe"@), join(dir, stem)]
            },
            TargetOs::MacOs => seq![
                join(dir, stem + "-macos"@),
                join(dir, stem + "-darwin"@),
                join(dir, stem),
            ],
            TargetOs::Linux => seq![join(dir, stem + "-linux"@), join(dir, stem)],
            TargetOs::Other => seq![n],
        },
    )
}

fn with_suffix(dir: &Vec<char>, stem: &Vec<char>, suffix: &str) -> (r: Vec<char>)
    ensures
        r@ == join(dir@, stem@ + suffix@),
{
    let sv = chars_of(suffix);
    let name = concat(stem, &sv);
    join_chars(dir, &name)
}

pub fn platform_executable_relative_paths(path: &str, os: TargetOs) -> (r: Vec<String>)
    ensures
        string_views(r@) == executable_candidates(path@, os),
{
    let p = chars_of(path);
    let mut n: Vec<char> = Vec::new();
    let mut i: usize = 0;
    while i < p.len()
        invariant
            i <= p.len(),
            n@ == forward_slashes(p@.take(i as int)),
        decreases p.len() - i,
    {
        let c = p[i];
        n.push(if c == '\\' { '/' } else { c });
        i += 1;
        assert(n@ =~= forward_slashes(p@.take(i as int)));
    }
    assert(p@.take(p.len() as int) =~= p@);
    let dir = match parent_chars(&n) {
        Some(d) => d,
        None => Vec::new(),
    };
    let stem = match file_stem_chars(&n) {
        Some(s) => s,
        None => crate::text::copy_chars(&p),
    };
    let mut c: Vec<Vec<char>> = Vec::new();
    match os {
        TargetOs::Windows => {
            let exe = chars_of("exe");
            let is_exe = match extension_chars(&n) {
                Some(e) => same(&e, &exe),
                None => false,
            };
            if is_exe {
                c.push(crate::text::copy_chars(&n));
            } else {
                c.push(with_suffix(&dir, &stem, ".exe"));
                c.push(join_chars(&dir, &stem));
            }
        },
        TargetOs::MacOs => {
            c.push(with_suffix(&dir, &stem, "-macos"));
            c.push(with_suffix(&dir, &stem, "-darwin"));
            c.push(join_chars(&dir, &stem));
        },
        TargetOs::Linux => {
            c.push(with_suffix(&dir, &stem, "-linux"));
            c.push(join_chars(&dir, &stem));
        },
        TargetOs::Other => {
            c.push(crate::text::copy_chars(&n));
        },
    }
    let ghost expected = match os {
        TargetOs::Windows => if extension(n@) == Some("exe"@) {
            seq![n@]
        } else {
            seq![join(dir@, stem@ + ".exe"@), join(dir@, stem@)]
        },
        TargetOs::MacOs => seq![
            join(dir@, stem@ + "-macos"@),
            join(dir@, stem@ + "-darwin"@),
            join(dir@, stem@),
        ],
        TargetOs::Linux => seq![join(dir@, stem@ + "-linux"@), join(dir@, stem@)],
        TargetOs::Other => seq![n@],
    };
    assert(views(c@) =~= expected);
    dedup_strings(&c)
}

/// The command names under which the downloader `path` is looked for in the
/// search path on `os`, then its own file name, consecutive repeats removed.
pub open spec fn command_names(path: Seq<char>, os: TargetOs) -> Seq<Seq<char>> {
    let stem = match file_stem(path) {
        Some(s) => s,
        None => path,
    };
    let name = match file_name(path) {
        Some(n) => n,
        None => stem,
    };
    dedup_runs(
        match os {
            TargetOs::Windows => seq![stem + ".exe"@, stem, name],
            TargetOs::MacOs => seq![stem + "-macos"@, stem + "-darwin"@, stem, name],
            TargetOs::Linux => seq![stem + "-linux"@, stem, name],
            TargetOs::Other => seq![name, stem, name],
        },
    )
}

pub fn platform_command_names(path: &str, os: TargetOs) -> (r: Vec<String>)
    ensures
        string_views(r@) == command_names(path@, os),
{
    let p = chars_of(path);
    let stem = match file_stem_chars(&p) {
        Some(s) => s,
        None => crate::text::copy_chars(&p),
    };
    let name = match file_name_chars(&p) {
        Some(n) => n,
        None => crate::text::copy_chars(&stem),
    };
    let mut c: Vec<Vec<char>> = Vec::new();
    match os {
        TargetOs::Windows => {
            let e = chars_of(".exe");
            c.push(concat(&stem, &e));
            c.push(crate::text::copy_chars(&stem));
        },
        TargetOs::MacOs => {
            let m = chars_of("-macos");
            let d = chars_of("-darwin");
            c.push(concat(&stem, &m));
            c.push(concat(&stem, &d));
            c.push(crate::text::copy_chars(&stem));
        },
        TargetOs::Linux => {
            let l = chars_of("-linux");
            c.push(concat(&stem, &l));
            c.push(crate::text::copy_chars(&stem));
        },
        TargetOs::Other => {
            c.push(crate::text::copy_chars(&name));
            c.push(crate::text::copy_chars(&stem));
        },
    }
    c.push(name);
    let ghost expected = match os {
        TargetOs::Windows => seq![stem@ + ".exe"@, stem@, name@],
        TargetOs::MacOs => seq![stem@ + "-macos"@, stem@ + "-darwin"@, stem@, name@],
        TargetOs::Linux => seq![stem@ + "-linux"@, stem@, name@],
        TargetOs::Other => seq![name@, stem@, name@],
    };
    assert(views(c@) =~= expected);
    dedup_strings(&c)
}

/// The paths at which a relative path is looked for, one per root, in order.
pub fn relative_root_candidates(relative_path: &str, roots: &Vec<String>) -> (r: Vec<String>)
    ensures
        string_views(r@) == string_views(roots@).map_values(|root: Seq<char>| join(root, relative_path@)),
{
    let rel = chars_of(relative_path);
    let ghost rv = string_views(roots@);
    let mut out: Vec<String> = Vec::new();
    let mut i: usize = 0;
    while i < roots.len()
        invariant
            i <= roots.len(),
            rv == string_views(roots@),
            rel@ == relative_path@,
            string_views(out@) == rv.map_values(|root: Seq<char>| join(root, relative_path@)).take(i as int),
        decreases roots.len() - i,
    {
        let root = chars_of(roots[i].as_str());
        assert(rv[i as int] == root@);
        let p = join_chars(&root, &rel);
        let ghost before = string_views(out@);
        out.push(string_of(&p));
        assert(string_views(out@) =~= before.push(p@));
        i += 1;
        assert(string_views(out@) =~= rv.map_values(|root: Seq<char>| join(root, relative_path@)).take(i as int));
    }
    assert(rv.map_values(|root: Seq<char>| join(root, relative_path@)).take(roots.len() as int) =~= rv.map_values(|root: Seq<char>| join(root, relative_path@)));
    out
}

/// The permission bits to set on the downloader: when no execute bit is set,
/// the mode with `rwxr-xr-x` added; `None` when it is already executable.
pub open spec fn executable_mode_of(mode: u32) -> Option<u32> {
    if mode & 0o111 == 0 {
        Some(mode | 0o755)
    } else {
        None
    }
}

pub fn executable_mode(mode: u32) -> (r: Option<u32>)
    ensures
        r == executable_mode_of(mode),
{
    if mode & 0o111 == 0 {
        Some(mode | 0o755)
    } else {
        None
    }
}


// ------------------------------------------------------------------
// After a download
// ------------------------------------------------------------------

/// What happens to a finished download.
#[derive(Debug, Clone, Copy, PartialEq, Eq, Structural)]
pub enum PostDownloadAction {
    /// Leave it alone.
    Skip,
    /// Scrape it (capturing a cover from the video if the scrape fails).
    Scrape,
    /// Capture a cover from the video.
    CaptureCover,
}

/// The downloaded file enters the library only when it lies in a managed
/// directory and is not scraped yet. With a designation it is scraped when
/// automatic scraping is on, else left alone; without one a cover is
/// captured from the video.
pub open spec fn post_download_action_of(
    in_managed_dir: bool,
    has_designation: bool,
    auto_scrape: bool,
    already_scraped: bool,
) -> PostDownloadAction {
    if !in_managed_dir || (has_designation && !auto_scrape) || already_scraped {
        PostDownloadAction::Skip
    } else if has_designation {
        PostDownloadAction::Scrape
    } else {
        PostDownloadAction::CaptureCover
    }
}

pub fn post_download_action(
    in_managed_dir: bool,
    has_designation: bool,
    auto_scrape: bool,
    already_scraped: bool,
) -> (r: PostDownloadAction)
    ensures
        r == post_download_action_of(in_managed_dir, has_designation, auto_scrape, already_scraped),
{
    if !in_managed_dir || (has_designation && !auto_scrape) || already_scraped {
        PostDownloadAction::Skip
    } else if has_designation {
        PostDownloadAction::Scrape
    } else {
        PostDownloadAction::CaptureCover
    }
}

/// A cover is captured after the post-processing step when that step was a
/// capture, or when it was a scrape that failed.
pub fn needs_cover_capture(action: PostDownloadAction, scrape_ok: bool) -> (r: bool)
    ensures
        r == (action == PostDownloadAction::CaptureCover || (action == PostDownloadAction::Scrape
            && !scrape_ok)),
{
    match action {
        PostDownloadAction::Skip => false,
        PostDownloadAction::Scrape => !scrape_ok,
        PostDownloadAction::CaptureCover => true,
    }
}

// ------------------------------------------------------------------
// The end of a download run
// ------------------------------------------------------------------

/// Bytes recorded for a completed download: the last downloaded count the
/// downloader reported, or its last total when it reported none.
pub fn final_byte_count(last_downloaded: u64, last_total: u64) -> (r: u64)
    ensures
        r == (if last_downloaded > 0 {
            last_downloaded
        } else {
            last_total
        }),
{
    if last_downloaded > 0 {
        last_downloaded
    } else {
        last_total
    }
}

/// A line announcing the merge moves the task to the merging state, once.
pub fn enters_merge_stage(line: &str, merging: bool) -> (r: bool)
    ensures
        r == (!merging && is_merging_line(line@)),
{
    !merging && is_nm3u8dl_merging(line)
}

/// A line with its terminal escape sequences removed (as
/// `strip_ansi_escape_codes` computes it).
pub open spec fn stripped_text(s: Seq<char>) -> Seq<char> {
    match regex_replaced(ANSI_ESCAPE_PATTERN@, s, Seq::empty()) {
        Some(x) => x,
        None => s,
    }
}

/// Longest error output kept in a failure message, in bytes.
pub const FAILURE_DETAIL_MAX_BYTES: usize = 2000;

/// What a failed downloader wrote to its error output, trimmed, cleaned of
/// escape sequences and cut to its last [`FAILURE_DETAIL_MAX_BYTES`] bytes.
pub open spec fn failure_detail(stderr: Seq<char>) -> Seq<char> {
    vstd::utf8::decode_utf8(
        tail_bytes(vstd::utf8::encode_utf8(trim(stripped_text(trim(stderr)))), FAILURE_DETAIL_MAX_BYTES as nat),
    )
}

/// An `i32` in decimal, with a leading `-` when negative.
pub open spec fn signed_decimal(c: i32) -> Seq<char> {
    if c < 0 {
        seq!['-'] + decimal((-(c as int)) as nat)
    } else {
        decimal(c as nat)
    }
}

/// An exit code as `{:?}` writes an `Option<i32>`.
pub open spec fn exit_code_text(code: Option<i32>) -> Seq<char> {
    match code {
        Some(c) => "Some("@ + signed_decimal(c) + ")"@,
        None => "None"@,
    }
}

/// The error of a downloader that exited with failure: its error output when
/// anything is left of it, else its exit code.
pub open spec fn exit_failure_text(stderr: Seq<char>, code: Option<i32>) -> Seq<char> {
    let d = failure_detail(stderr);
    if d.len() > 0 {
        "下载器退出失败: "@ + d
    } else {
        "下载器退出失败，exit_code="@ + exit_code_text(code)
    }
}

fn signed_decimal_chars(c: i32) -> (r: Vec<char>)
    ensures
        r@ == signed_decimal(c),
{
    if c < 0 {
        let n: i64 = -(c as i64);
        let d = decimal_chars(n as u64);
        let mut m: Vec<char> = Vec::new();
        m.push('-');
        assert(m@ =~= seq!['-']);
        concat(&m, &d)
    } else {
        decimal_chars(c as u64)
    }
}

/// The failure message of a downloader that exited with failure, from what
/// it wrote to its error output and its exit code.
pub fn exit_failure_message(stderr: &str, exit_code: Option<i32>) -> (r: String)
    ensures
        r@ == exit_failure_text(stderr@, exit_code),
{
    broadcast use vstd::utf8::encode_utf8_decode_utf8;
    let t = string_of(&trim_str(stderr));
    let cleaned = strip_ansi_escape_codes(t.as_str());
    let c2 = string_of(&trim_str(cleaned.as_str()));
    let kept = keep_tail(c2.as_str(), FAILURE_DETAIL_MAX_BYTES);
    assert(kept@ == failure_detail(stderr@)) by {
        assert(vstd::utf8::decode_utf8(vstd::utf8::encode_utf8(kept@)) == kept@);
    }
    let kv = chars_of(kept.as_str());
    if kv.len() > 0 {
        string_of(&concat(&chars_of("下载器退出失败: "), &kv))
    } else {
        let code = match exit_code {
            Some(c) => {
                let a = concat(&chars_of("Some("), &signed_decimal_chars(c));
                concat(&a, &chars_of(")"))
            },
            None => chars_of("None"),
        };
        string_of(&concat(&chars_of("下载器退出失败，exit_code="), &code))
    }
}

} // verus!
