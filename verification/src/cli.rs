//! The decisions of the command-line front end that do not touch the file
//! system or the network: flag checks, the rank of a per-rank log file, URL
//! decoding of requested paths, and the content type of a served file.

use vstd::prelude::*;

use crate::text::{
    all_digits, chars_equal, chars_of, chars_start_with, decimal, digits_value, has_prefix, is_digit,
    lemma_decimal_digits, push_char, push_decimal, string_of_chars,
};

verus! {

/// The command-line options.
#[derive(Debug)]
pub struct Cli {
    /// The log file, or with `latest` / `all_ranks_html` the directory of logs.
    pub path: String,
    /// Parse the most recently modified file of the directory.
    pub latest: bool,
    /// The output directory (`tl_out` by default).
    pub out: String,
    /// Delete the output directory first when it already exists.
    pub overwrite: bool,
    /// Fail on unrecognized log lines.
    pub strict: bool,
    /// Fail on log lines without a compile id.
    pub strict_compile_id: bool,
    /// Do not open a browser at the end.
    pub no_browser: bool,
    /// HTML added at the top of the report.
    pub custom_header_html: String,
    /// Be more chatty.
    pub verbose: bool,
    /// Write plain text where some parsers would write HTML.
    pub plain_text: bool,
    /// Parse export-specific logs.
    pub export: bool,
    /// Inductor provenance tracking highlighter.
    pub inductor_provenance: bool,
    /// Parse every rank's log and build a combined report.
    pub all_ranks_html: bool,
    /// Serve the output directory over HTTP.
    pub serve: bool,
    /// The port to serve on; a free one in 8000..8100 when absent.
    pub port: Option<u16>,
}

/// The refusals of the command line.
#[derive(Debug, PartialEq, Eq, Structural)]
pub enum CliError {
    /// `--latest` together with `--all-ranks-html`.
    LatestWithAllRanks,
    /// The output directory exists and `--overwrite` was not given.
    OutputExists,
}

impl Cli {
    /// Refuses `--latest` together with `--all-ranks-html`.
    pub fn check_flags(&self) -> (r: Result<(), CliError>)
        ensures
            r is Err <==> (self.latest && self.all_ranks_html),
            r is Err ==> r == Err::<(), CliError>(CliError::LatestWithAllRanks),
    {
        if self.all_ranks_html && self.latest {
            Err(CliError::LatestWithAllRanks)
        } else {
            Ok(())
        }
    }

    /// A browser is opened unless `--no-browser` or `--serve` was given.
    pub fn open_browser(&self) -> (b: bool)
        ensures
            b == (!self.no_browser && !self.serve),
    {
        !self.no_browser && !self.serve
    }
}

/// What to do with the output directory: `Ok(true)` to delete it before
/// creating it again, `Ok(false)` to create it, an error when it exists and
/// may not be replaced.
pub fn output_directory_plan(exists: bool, overwrite: bool) -> (plan: Result<bool, CliError>)
    ensures
        plan == (if exists && !overwrite {
            Err::<bool, CliError>(CliError::OutputExists)
        } else {
            Ok::<bool, CliError>(exists)
        }),
{
    if exists {
        if !overwrite {
            return Err(CliError::OutputExists);
        }
        Ok(true)
    } else {
        Ok(false)
    }
}

/// The value of a hexadecimal digit, either case.
pub open spec fn hex_value(c: char) -> Option<u8> {
    if '0' <= c <= '9' {
        Some((c as u32 - '0' as u32) as u8)
    } else if 'a' <= c <= 'f' {
        Some((c as u32 - 'a' as u32 + 10) as u8)
    } else if 'A' <= c <= 'F' {
        Some((c as u32 - 'A' as u32 + 10) as u8)
    } else {
        None
    }
}

/// The byte that `u8::from_str_radix(c1 c2, 16)` reads from two characters:
/// two hex digits, or a `+` sign and one hex digit.
pub open spec fn hex_byte(c1: char, c2: char) -> Option<u8> {
    if c1 == '+' {
        hex_value(c2)
    } else {
        match (hex_value(c1), hex_value(c2)) {
            (Some(a), Some(b)) => Some((a * 16 + b) as u8),
            _ => None,
        }
    }
}

/// URL decoding as the server does it: `%XX` becomes the character with
/// code `XX`, `+` becomes a space, a `%` not followed by a readable byte is
/// kept together with the (at most two) characters after it.
pub open spec fn url_decode(s: Seq<char>) -> Seq<char>
    decreases s.len(),
{
    if s.len() == 0 {
        seq![]
    } else if s[0] == '%' {
        if s.len() >= 3 {
            match hex_byte(s[1], s[2]) {
                Some(b) => seq![b as char] + url_decode(s.skip(3)),
                None => seq!['%', s[1], s[2]] + url_decode(s.skip(3)),
            }
        } else {
            s
        }
    } else if s[0] == '+' {
        seq![' '] + url_decode(s.skip(1))
    } else {
        seq![s[0]] + url_decode(s.skip(1))
    }
}

fn hex_digit(c: char) -> (v: Option<u8>)
    ensures
        v == hex_value(c),
{
    if '0' <= c && c <= '9' {
        Some(((c as u32) - ('0' as u32)) as u8)
    } else if 'a' <= c && c <= 'f' {
        Some(((c as u32) - ('a' as u32) + 10) as u8)
    } else if 'A' <= c && c <= 'F' {
        Some(((c as u32) - ('A' as u32) + 10) as u8)
    } else {
        None
    }
}

fn hex_pair(c1: char, c2: char) -> (b: Option<u8>)
    ensures
        b == hex_byte(c1, c2),
{
    if c1 == '+' {
        return hex_digit(c2);
    }
    match (hex_digit(c1), hex_digit(c2)) {
        (Some(a), Some(b)) => Some(a * 16 + b),
        _ => None,
    }
}

/// Decodes `%XX` sequences and `+` in a requested URL path.
pub fn urlencoding_decode(s: &str) -> (out: String)
    ensures
        out@ == url_decode(s@),
{
    let cs = chars_of(s);
    let n = cs.len();
    let mut out = String::new();
    let mut i: usize = 0;
    assert(cs@.skip(0) == cs@);
    while i < n
        invariant
            n == cs@.len(),
            i <= n,
            out@ + url_decode(cs@.skip(i as int)) == url_decode(cs@),
        decreases n - i,
    {
        let ghost rest = cs@.skip(i as int);
        assert(rest[0] == cs@[i as int]);
        let c = cs[i];
        if c == '%' {
            if n - i >= 3 {
                assert(rest[1] == cs@[i + 1] && rest[2] == cs@[i + 2]);
                assert(rest.skip(3) == cs@.skip(i + 3));
                match hex_pair(cs[i + 1], cs[i + 2]) {
                    Some(b) => {
                        push_char(&mut out, b as char);
                    },
                    None => {
                        push_char(&mut out, '%');
                        push_char(&mut out, cs[i + 1]);
                        push_char(&mut out, cs[i + 2]);
                        assert(seq!['%', cs@[i + 1], cs@[i + 2]] == seq!['%'].push(cs@[i + 1]).push(cs@[i + 2]));
                    },
                }
                i = i + 3;
            } else {
                let mut k = i;
                while k < n
                    invariant
                        n == cs@.len(),
                        i <= k <= n,
                        out@ + cs@.subrange(k as int, n as int) + url_decode(cs@.skip(n as int))
                            == url_decode(cs@),
                    decreases n - k,
                {
                    assert(cs@.subrange(k as int, n as int) == seq![cs@[k as int]] + cs@.subrange(k + 1, n as int));
                    push_char(&mut out, cs[k]);
                    k = k + 1;
                }
                assert(cs@.skip(n as int).len() == 0);
                assert(rest == cs@.subrange(i as int, n as int));
                i = n;
            }
        } else {
            if c == '+' {
                push_char(&mut out, ' ');
            } else {
                push_char(&mut out, c);
            }
            assert(rest.skip(1) == cs@.skip(i + 1));
            i = i + 1;
        }
    }
    assert(url_decode(cs@.skip(n as int)) == Seq::<char>::empty());
    out
}

/// `s` without its leading `/` characters.
pub open spec fn trim_leading_slashes(s: Seq<char>) -> Seq<char>
    decreases s.len(),
{
    if s.len() > 0 && s[0] == '/' {
        trim_leading_slashes(s.skip(1))
    } else {
        s
    }
}

/// The file a request asks for, relative to the served directory: the URL
/// path without leading slashes and decoded, `index.html` when that is empty.
pub open spec fn requested_path(url: Seq<char>) -> Seq<char> {
    let decoded = url_decode(trim_leading_slashes(url));
    if decoded.len() == 0 {
        "index.html"@
    } else {
        decoded
    }
}

/// The path, relative to the served directory, of the file a request URL asks for.
pub fn request_file_path(url: &str) -> (path: String)
    ensures
        path@ == requested_path(url@),
{
    let cs = chars_of(url);
    let mut start: usize = 0;
    assert(cs@.skip(0) == cs@);
    while start < cs.len() && cs[start] == '/'
        invariant
            start <= cs@.len(),
            trim_leading_slashes(cs@) == trim_leading_slashes(cs@.skip(start as int)),
        decreases cs@.len() - start,
    {
        assert(cs@.skip(start as int).skip(1) == cs@.skip(start + 1));
        start = start + 1;
    }
    assert(trim_leading_slashes(cs@.skip(start as int)) == cs@.skip(start as int));
    let trimmed = string_of_chars(&cs, start, cs.len());
    assert(cs@.subrange(start as int, cs@.len() as int) == cs@.skip(start as int));
    let decoded = urlencoding_decode(trimmed.as_str());
    let dc = chars_of(decoded.as_str());
    if dc.len() == 0 {
        String::from_str("index.html")
    } else {
        decoded
    }
}

/// ASCII lower case of one character.
pub open spec fn ascii_lower(c: char) -> char {
    if 'A' <= c <= 'Z' {
        ((c as u32) + 32) as char
    } else {
        c
    }
}

/// The content type served for a file extension, compared without regard to
/// ASCII case.
pub open spec fn content_type_of(ext: Seq<char>) -> Seq<char> {
    let e = ext.map_values(|c: char| ascii_lower(c));
    if e == "html"@ || e == "htm"@ {
        "text/html; charset=utf-8"@
    } else if e == "css"@ {
        "text/css; charset=utf-8"@
    } else if e == "js"@ {
        "application/javascript; charset=utf-8"@
    } else if e == "json"@ {
        "application/json; charset=utf-8"@
    } else if e == "png"@ {
        "image/png"@
    } else if e == "jpg"@ || e == "jpeg"@ {
        "image/jpeg"@
    } else if e == "gif"@ {
        "image/gif"@
    } else if e == "svg"@ {
        "image/svg+xml"@
    } else if e == "txt"@ {
        "text/plain; charset=utf-8"@
    } else if e == "py"@ {
        "text/x-python; charset=utf-8"@
    } else {
        "application/octet-stream"@
    }
}

fn is_ext(lower: &Vec<char>, key: &str) -> (b: bool)
    ensures
        b == (lower@ == key@),
{
    let k = chars_of(key);
    chars_equal(lower, &k)
}

/// The content type served for a file with the given extension.
///
/// The extension is compared in ASCII lower case. A Unicode lower case would
/// give the same answer: the only non-ASCII character whose lower case is
/// ASCII is the Kelvin sign, which lowers to `k`, and no known extension
/// holds a `k`.
pub fn content_type_for_extension(ext: &str) -> (ct: String)
    ensures
        ct@ == content_type_of(ext@),
{
    let cs = chars_of(ext);
    let mut lower: Vec<char> = Vec::new();
    let mut i: usize = 0;
    while i < cs.len()
        invariant
            i <= cs@.len(),
            lower@ == cs@.take(i as int).map_values(|c: char| ascii_lower(c)),
        decreases cs@.len() - i,
    {
        let c = cs[i];
        let l = if 'A' <= c && c <= 'Z' {
            ((c as u8) + 32) as char
        } else {
            c
        };
        lower.push(l);
        assert(cs@.take(i + 1).map_values(|c: char| ascii_lower(c)) == cs@.take(i as int).map_values(
            |c: char| ascii_lower(c),
        ).push(ascii_lower(c)));
        i = i + 1;
    }
    assert(cs@.take(i as int) == cs@);
    let ct = if is_ext(&lower, "html") || is_ext(&lower, "htm") {
        "text/html; charset=utf-8"
    } else if is_ext(&lower, "css") {
        "text/css; charset=utf-8"
    } else if is_ext(&lower, "js") {
        "application/javascript; charset=utf-8"
    } else if is_ext(&lower, "json") {
        "application/json; charset=utf-8"
    } else if is_ext(&lower, "png") {
        "image/png"
    } else if is_ext(&lower, "jpg") || is_ext(&lower, "jpeg") {
        "image/jpeg"
    } else if is_ext(&lower, "gif") {
        "image/gif"
    } else if is_ext(&lower, "svg") {
        "image/svg+xml"
    } else if is_ext(&lower, "txt") {
        "text/plain; charset=utf-8"
    } else if is_ext(&lower, "py") {
        "text/x-python; charset=utf-8"
    } else {
        "application/octet-stream"
    };
    String::from_str(ct)
}

/// The extension of the last component of a path, as
/// `std::path::Path::extension` computes it.
pub uninterp spec fn path_extension(path: Seq<char>) -> Option<Seq<char>>;

/// `std::path::Path::new(path).extension()`, converted back to a `String`.
/// The contract names the result `path_extension`; an extension taken from
/// a `&str` is always valid UTF-8, so the conversion never drops it.
#[verifier::external_body]
fn extension_of(path: &str) -> (ext: Option<String>)
    ensures
        match ext {
            Some(e) => path_extension(path@) == Some(e@),
            None => path_extension(path@) is None,
        },
{
    std::path::Path::new(path).extension().and_then(|e| e.to_str()).map(|e| e.to_string())
}

/// The content type served for a file: by its extension, the generic binary
/// type when it has none.
pub fn guess_content_type(path: &str) -> (ct: String)
    ensures
        ct@ == content_type_of(
            match path_extension(path@) {
                Some(e) => e,
                None => Seq::<char>::empty(),
            },
        ),
{
    match extension_of(path) {
        Some(e) => content_type_for_extension(e.as_str()),
        None => {
            let none = "";
            proof {
                reveal_strlit("");
                assert(none@ =~= Seq::<char>::empty());
            }
            content_type_for_extension(none)
        },
    }
}

/// `p` is a suffix of `s`.
pub open spec fn has_suffix(s: Seq<char>, p: Seq<char>) -> bool {
    p.len() <= s.len() && s.subrange(s.len() - p.len(), s.len() as int) == p
}

/// The part of `s` before its first `_` (all of `s` when it has none).
pub open spec fn first_field(s: Seq<char>) -> Seq<char>
    decreases s.len(),
{
    if s.len() == 0 {
        s
    } else if s[0] == '_' {
        seq![]
    } else {
        seq![s[0]] + first_field(s.skip(1))
    }
}

/// What `str::parse::<u32>` accepts: an optional `+`, then at least one
/// decimal digit and nothing else, denoting a number that fits in 32 bits.
pub open spec fn parse_u32(s: Seq<char>) -> Option<u32> {
    let digits = unsigned_digits(s);
    if digits.len() > 0 && all_digits(digits) && digits_value(digits) <= u32::MAX {
        Some(digits_value(digits) as u32)
    } else {
        None
    }
}

/// `s` without the one `+` sign it may start with.
pub open spec fn unsigned_digits(s: Seq<char>) -> Seq<char> {
    if s.len() > 0 && s[0] == '+' {
        s.skip(1)
    } else {
        s
    }
}

/// The rank of a per-rank log file `dedicated_log_torch_trace_rank_<N>[_...].log`.
pub open spec fn log_file_rank(name: Seq<char>) -> Option<u32> {
    let prefix = "dedicated_log_torch_trace_rank_"@;
    let suffix = ".log"@;
    if has_prefix(name, prefix) && has_suffix(name.skip(prefix.len() as int), suffix) {
        let rest = name.skip(prefix.len() as int);
        parse_u32(first_field(rest.take(rest.len() - suffix.len())))
    } else {
        None
    }
}

proof fn lemma_digits_value_grows(s: Seq<char>, k: int, j: int)
    requires
        0 <= k <= j <= s.len(),
    ensures
        digits_value(s.take(k)) <= digits_value(s.take(j)),
    decreases j - k,
{
    if k < j {
        lemma_digits_value_grows(s, k, j - 1);
        assert(s.take(j).drop_last() == s.take(j - 1));
        let v = digits_value(s.take(j - 1));
        assert(v <= v * 10) by (nonlinear_arith);
    }
}

/// `str::parse::<u32>` of the characters `cs[from..to]`.
fn parse_u32_chars(cs: &Vec<char>, from: usize, to: usize) -> (v: Option<u32>)
    requires
        from <= to <= cs@.len(),
    ensures
        v == parse_u32(cs@.subrange(from as int, to as int)),
{
    let ghost s = cs@.subrange(from as int, to as int);
    let ghost sd = unsigned_digits(s);
    let mut start = from;
    if from < to && cs[from] == '+' {
        start = from + 1;
    }
    let ghost digits = cs@.subrange(start as int, to as int);
    assert(sd == digits);
    if start == to {
        return None;
    }
    let mut acc: u64 = 0;
    let mut k = start;
    while k < to
        invariant
            from <= start <= k <= to <= cs@.len(),
            digits == cs@.subrange(start as int, to as int),
            sd == digits,
            s == cs@.subrange(from as int, to as int),
            sd == unsigned_digits(s),
            acc == digits_value(digits.take(k - start)),
            acc <= u32::MAX,
            forall|i: int| 0 <= i < k - start ==> is_digit(#[trigger] digits[i]),
        decreases to - k,
    {
        let c = cs[k];
        assert(digits[k - start] == c);
        if !('0' <= c && c <= '9') {
            assert(!is_digit(digits[k - start]));
            assert(!all_digits(sd));
            assert(parse_u32(s) is None);
            return None;
        }
        let d = ((c as u32) - ('0' as u32)) as u64;
        assert(acc * 10 <= 42949672950) by (nonlinear_arith)
            requires
                acc <= u32::MAX,
        ;
        let next = acc * 10 + d;
        assert(digits.take(k - start + 1).drop_last() == digits.take(k - start));
        assert(digits.take(k - start + 1).last() == c);
        assert(next == digits_value(digits.take(k - start + 1)));
        if next > 0xffff_ffffu64 {
            proof {
                lemma_digits_value_grows(digits, k - start + 1, digits.len() as int);
                assert(digits.take(digits.len() as int) == digits);
            }
            return None;
        }
        acc = next;
        k = k + 1;
    }
    assert(digits.take(k - start) == digits);
    Some(acc as u32)
}

/// The rank of a per-rank log file from its file name,
/// `dedicated_log_torch_trace_rank_<N>[_...].log`; `None` for other names.
pub fn rank_of_log_file_name(name: &str) -> (rank: Option<u32>)
    ensures
        rank == log_file_rank(name@),
{
    let cs = chars_of(name);
    let prefix = chars_of("dedicated_log_torch_trace_rank_");
    let suffix = chars_of(".log");
    if !chars_start_with(&cs, &prefix) {
        return None;
    }
    let p = prefix.len();
    let n = cs.len();
    let ghost rest = cs@.skip(p as int);
    assert(rest.len() == n - p);
    if n - p < suffix.len() {
        return None;
    }
    let end = n - suffix.len();
    let mut j: usize = 0;
    while j < suffix.len()
        invariant
            p <= end <= n == cs@.len(),
            rest == cs@.skip(p as int),
            cs@ == name@,
            prefix@ == "dedicated_log_torch_trace_rank_"@,
            suffix@ == ".log"@,
            p == prefix@.len(),
            end + suffix@.len() == n,
            j <= suffix@.len(),
            forall|i: int| 0 <= i < j ==> cs@[end + i] == suffix@[i],
        decreases suffix@.len() - j,
    {
        if cs[end + j] != suffix[j] {
            assert(rest.len() == n - p);
            assert(rest.subrange(rest.len() - suffix@.len(), rest.len() as int)[j as int] == cs@[end + j]);
            assert(rest.subrange(rest.len() - suffix@.len(), rest.len() as int) != suffix@);
            return None;
        }
        j = j + 1;
    }
    assert(rest.len() == n - p);
    assert forall|i: int| 0 <= i < suffix@.len() implies rest.subrange(rest.len() - suffix@.len(), rest.len() as int)[i] == suffix@[i] by {
        assert(rest.subrange(rest.len() - suffix@.len(), rest.len() as int)[i] == cs@[end + i]);
    }
    assert(rest.subrange(rest.len() - suffix@.len(), rest.len() as int) =~= suffix@);
    let mut k = p;
    assert(rest.take(end - p) =~= cs@.subrange(p as int, end as int));
    assert(cs@.subrange(p as int, p as int) =~= Seq::<char>::empty());
    while k < end && cs[k] != '_'
        invariant
            p <= k <= end <= cs@.len(),
            first_field(rest.take(end - p)) == cs@.subrange(p as int, k as int) + first_field(
                cs@.subrange(k as int, end as int),
            ),
        decreases end - k,
    {
        assert(cs@.subrange(k as int, end as int).skip(1) == cs@.subrange(k + 1, end as int));
        assert(cs@.subrange(p as int, k + 1) == cs@.subrange(p as int, k as int) + seq![cs@[k as int]]);
        k = k + 1;
    }
    proof {
        assert(rest.take(end - p) == cs@.subrange(p as int, end as int));
        if k < end {
            assert(cs@.subrange(k as int, end as int)[0] == '_');
        }
        assert(first_field(cs@.subrange(k as int, end as int)) =~= Seq::<char>::empty());
        assert(first_field(rest.take(end - p)) =~= cs@.subrange(p as int, k as int));
    }
    parse_u32_chars(&cs, p, k)
}

/// Rank numbers in increasing order.
pub open spec fn ascending(s: Seq<u32>) -> bool {
    forall|i: int, j: int| 0 <= i <= j < s.len() ==> s[i] <= s[j]
}

/// Sorts rank numbers in increasing order, keeping every one of them.
pub fn sort_ranks(ranks: &mut Vec<u32>)
    ensures
        ascending(final(ranks)@),
        final(ranks)@.to_multiset() == old(ranks)@.to_multiset(),
{
    broadcast use vstd::seq_lib::group_to_multiset_ensures;

    let mut sorted: Vec<u32> = Vec::new();
    let mut i: usize = 0;
    assert(ranks@.take(0) =~= Seq::<u32>::empty());
    assert(sorted@ =~= Seq::<u32>::empty());
    while i < ranks.len()
        invariant
            i <= ranks@.len(),
            ranks@ == old(ranks)@,
            ascending(sorted@),
            sorted@.to_multiset() == ranks@.take(i as int).to_multiset(),
        decreases ranks@.len() - i,
    {
        let x = ranks[i];
        let mut pos: usize = 0;
        while pos < sorted.len() && sorted[pos] <= x
            invariant
                pos <= sorted@.len(),
                forall|q: int| 0 <= q < pos ==> sorted@[q] <= x,
            decreases sorted@.len() - pos,
        {
            pos = pos + 1;
        }
        let ghost before = sorted@;
        sorted.insert(pos, x);
        proof {
            assert(ranks@.take(i + 1) == ranks@.take(i as int).push(x));
            vstd::seq_lib::to_multiset_insert(before, pos as int, x);
            vstd::seq_lib::to_multiset_build(ranks@.take(i as int), x);
            assert forall|a: int, b: int| 0 <= a <= b < sorted@.len() implies sorted@[a] <= sorted@[b] by {
                if pos < before.len() {
                    assert(x < before[pos as int]);
                }
            }
        }
        i = i + 1;
    }
    assert(ranks@.take(i as int) == ranks@);
    *ranks = sorted;
}

/// The decimal labels of rank numbers, in the same order.
pub fn rank_labels(ranks: &Vec<u32>) -> (labels: Vec<String>)
    ensures
        labels@.len() == ranks@.len(),
        forall|i: int| 0 <= i < ranks@.len() ==> #[trigger] labels@[i]@ == decimal(ranks@[i] as nat),
{
    let mut labels: Vec<String> = Vec::new();
    let mut i: usize = 0;
    while i < ranks.len()
        invariant
            i <= ranks@.len(),
            labels@.len() == i,
            forall|k: int| 0 <= k < i ==> #[trigger] labels@[k]@ == decimal(ranks@[k] as nat),
        decreases ranks@.len() - i,
    {
        let mut label = String::new();
        push_decimal(&mut label, ranks[i] as u128);
        labels.push(label);
        i = i + 1;
    }
    labels
}

/// The output subdirectory of rank `rank` in a multi-rank report: `rank_<rank>`.
pub fn rank_dir_name(rank: u32) -> (name: String)
    ensures
        name@ == "rank_"@ + decimal(rank as nat),
{
    let mut name = String::from_str("rank_");
    push_decimal(&mut name, rank as u128);
    name
}

/// The HTTP status the file server answers with, from what it found out about
/// the request: whether the path resolves inside the served directory, is a
/// file, could be opened and could be read. A path that is outside, not a
/// file or cannot be opened is not found (404); one that cannot be read is a
/// server error (500); otherwise the file is served (200).
pub fn response_status(inside_served_dir: bool, is_file: bool, opened: bool, read_ok: bool) -> (code: u16)
    ensures
        code == if !inside_served_dir || !is_file || !opened {
            404u16
        } else if !read_ok {
            500u16
        } else {
            200u16
        },
{
    if !inside_served_dir || !is_file || !opened {
        404
    } else if !read_ok {
        500
    } else {
        200
    }
}

proof fn lemma_first_field_of_digits(s: Seq<char>, tail: Seq<char>)
    requires
        all_digits(s),
        tail.len() == 0 || tail[0] == '_',
    ensures
        first_field(s + tail) == s,
    decreases s.len(),
{
    if s.len() == 0 {
        assert(s + tail == tail);
    } else {
        assert(is_digit(s[0]));
        assert((s + tail).skip(1) == s.skip(1) + tail);
        assert(all_digits(s.skip(1))) by {
            assert forall|i: int| 0 <= i < s.skip(1).len() implies is_digit(#[trigger] s.skip(1)[i]) by {
                assert(s.skip(1)[i] == s[i + 1]);
            }
        }
        lemma_first_field_of_digits(s.skip(1), tail);
        assert(seq![s[0]] + s.skip(1) == s);
    }
}

/// The rank written into a per-rank log file name is the rank read back from
/// it: `dedicated_log_torch_trace_rank_<r><tail>.log` gives `r` whenever the
/// tail is empty or starts with `_`.
pub proof fn law_log_file_rank_round_trip(r: u32, tail: Seq<char>)
    requires
        tail.len() == 0 || tail[0] == '_',
    ensures
        log_file_rank("dedicated_log_torch_trace_rank_"@ + decimal(r as nat) + tail + ".log"@)
            == Some(r),
{
    let prefix = "dedicated_log_torch_trace_rank_"@;
    let suffix = ".log"@;
    let digits = decimal(r as nat);
    let name = prefix + digits + tail + suffix;
    lemma_decimal_digits(r as nat);
    assert(name.subrange(0, prefix.len() as int) == prefix);
    let rest = name.skip(prefix.len() as int);
    assert(rest == digits + tail + suffix);
    assert(rest.subrange(rest.len() - suffix.len(), rest.len() as int) == suffix);
    assert(rest.take(rest.len() - suffix.len()) == digits + tail);
    lemma_first_field_of_digits(digits, tail);
    assert(is_digit(digits[0]));
    assert(unsigned_digits(digits) == digits);
}

/// The upper-case hexadecimal digit of a value below 16.
pub open spec fn upper_hex_digit(d: u8) -> char {
    if d < 10 {
        ((d + '0' as u32) as u32) as char
    } else {
        ((d - 10 + 'A' as u32) as u32) as char
    }
}

/// The lower-case hexadecimal digit of a value below 16.
pub open spec fn lower_hex_digit(d: u8) -> char {
    if d < 10 {
        ((d + '0' as u32) as u32) as char
    } else {
        ((d - 10 + 'a' as u32) as u32) as char
    }
}

/// The escape `%xy` of a byte, with lower-case hex digits, decodes to the
/// character of that byte, whatever follows it: the case of the digits does
/// not matter.
pub proof fn law_lower_case_percent_escape_decodes(b: u8, rest: Seq<char>)
    ensures
        url_decode(seq!['%', lower_hex_digit(b / 16), lower_hex_digit(b % 16)] + rest) == seq![b as char]
            + url_decode(rest),
{
    let s = seq!['%', lower_hex_digit(b / 16), lower_hex_digit(b % 16)] + rest;
    assert(s[0] == '%');
    assert(s[1] == lower_hex_digit(b / 16));
    assert(s[2] == lower_hex_digit(b % 16));
    assert(hex_value(lower_hex_digit(b / 16)) == Some(b / 16));
    assert(hex_value(lower_hex_digit(b % 16)) == Some(b % 16));
    assert(lower_hex_digit(b / 16) != '+');
    assert((b / 16) * 16 + b % 16 == b);
    assert(s.skip(3) == rest);
}

/// A hex digit has the same value in either case.
pub proof fn law_hex_digit_case_insensitive(d: u8)
    requires
        d < 16,
    ensures
        hex_value(lower_hex_digit(d)) == Some(d),
        hex_value(upper_hex_digit(d)) == Some(d),
{
}

/// Text with no `%` and no `+` decodes to itself.
pub proof fn law_url_decode_keeps_plain_text(s: Seq<char>)
    requires
        !s.contains('%'),
        !s.contains('+'),
    ensures
        url_decode(s) == s,
    decreases s.len(),
{
    if s.len() > 0 {
        assert(s.contains(s[0]));
        assert(!s.skip(1).contains('%') && !s.skip(1).contains('+')) by {
            assert forall|c: char| s.skip(1).contains(c) implies s.contains(c) by {
                let k = choose|k: int| 0 <= k < s.skip(1).len() && s.skip(1)[k] == c;
                assert(s[k + 1] == c);
            }
        }
        law_url_decode_keeps_plain_text(s.skip(1));
        assert(seq![s[0]] + s.skip(1) == s);
    }
}

/// The escape `%XY` of a byte, with upper-case hex digits, decodes to the
/// character of that byte, whatever follows it.
pub proof fn law_percent_escape_decodes(b: u8, rest: Seq<char>)
    ensures
        url_decode(seq!['%', upper_hex_digit(b / 16), upper_hex_digit(b % 16)] + rest) == seq![b as char]
            + url_decode(rest),
{
    let s = seq!['%', upper_hex_digit(b / 16), upper_hex_digit(b % 16)] + rest;
    assert(s[0] == '%');
    assert(s[1] == upper_hex_digit(b / 16));
    assert(s[2] == upper_hex_digit(b % 16));
    assert(hex_value(upper_hex_digit(b / 16)) == Some(b / 16));
    assert(hex_value(upper_hex_digit(b % 16)) == Some(b % 16));
    assert(upper_hex_digit(b / 16) != '+');
    assert((b / 16) * 16 + b % 16 == b);
    assert(s.skip(3) == rest);
}

/// A request never resolves to an empty path.
pub proof fn law_requested_path_is_never_empty(url: Seq<char>)
    ensures
        requested_path(url).len() > 0,
{
    reveal_strlit("index.html");
}

/// The content type ignores ASCII case: an extension and its lower case get
/// the same type.
pub proof fn law_content_type_ignores_case(ext: Seq<char>)
    ensures
        content_type_of(ext) == content_type_of(ext.map_values(|c: char| ascii_lower(c))),
{
    let lower = ext.map_values(|c: char| ascii_lower(c));
    assert(lower.map_values(|c: char| ascii_lower(c)) =~= lower);
}

} // verus!
