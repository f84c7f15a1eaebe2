//! The browser client's assets: the page that loads the compiled client,
//! which files of the compiled bundle it names, and which version of the
//! bindings generator the client was locked to.

use vstd::prelude::*;

use crate::graphics::{
    ascii, ends_with, find_byte, first_byte, has_suffix, lemma_first_byte_found, literal,
    push_all, slice_copy, slice_copy_range, whitespace_len, ws_len,
};
use crate::sheet::bytes_equal;

verus! {

// ----- The index page -----

/// The page that loads the client script `js` and its WebAssembly module
/// `wasm` (both served from the root).
pub open spec fn index_page(js: Seq<u8>, wasm: Seq<u8>) -> Seq<u8> {
    ascii(
        "<!DOCTYPE html>\n<html lang=\"en\">\n<head>\n  <title>stratego.io</title>\n  <meta charset=\"UTF-8\">\n  <meta name=\"viewport\" content=\"width=device-width, initial-scale=1\">\n  <meta name=\"description\" content=\"Open source HTML5 app that is a recreation of the classic game of Stratego\">\n  <link rel=\"icon\" type=\"image/x-icon\" href=\"/favicon.ico\" />\n  <link href=\"https://fonts.googleapis.com/css?family=Open+Sans\" rel=\"stylesheet\" type=\"text/css\">\n  <link rel=\"stylesheet\" type=\"text/css\" href=\"/style/graphics.css\">\n  <link rel=\"stylesheet\" type=\"text/css\" href=\"/style/main.css\">\n  <link rel=\"modulepreload\" href=\"/"@,
    ) + js + ascii("\">\n  <link rel=\"preload\" href=\"/"@) + wasm + ascii(
        "\" as=\"fetch\" type=\"application/wasm\" crossorigin>\n</head>\n<body class=\"pace-done\">\n<script type=\"module\">\nimport init from '/"@,
    ) + js + ascii("';\nawait init({ module_or_path: '/"@) + wasm + ascii(
        "' });\n</script>\n</body>\n</html>"@,
    )
}

/// The page that loads the client script `js` and its module `wasm`.
pub fn index_html(js: &[u8], wasm: &[u8]) -> (res: Vec<u8>)
    ensures
        res@ == index_page(js@, wasm@),
{
    let head =
        "<!DOCTYPE html>\n<html lang=\"en\">\n<head>\n  <title>stratego.io</title>\n  <meta charset=\"UTF-8\">\n  <meta name=\"viewport\" content=\"width=device-width, initial-scale=1\">\n  <meta name=\"description\" content=\"Open source HTML5 app that is a recreation of the classic game of Stratego\">\n  <link rel=\"icon\" type=\"image/x-icon\" href=\"/favicon.ico\" />\n  <link href=\"https://fonts.googleapis.com/css?family=Open+Sans\" rel=\"stylesheet\" type=\"text/css\">\n  <link rel=\"stylesheet\" type=\"text/css\" href=\"/style/graphics.css\">\n  <link rel=\"stylesheet\" type=\"text/css\" href=\"/style/main.css\">\n  <link rel=\"modulepreload\" href=\"/";
    let preload = "\">\n  <link rel=\"preload\" href=\"/";
    let script =
        "\" as=\"fetch\" type=\"application/wasm\" crossorigin>\n</head>\n<body class=\"pace-done\">\n<script type=\"module\">\nimport init from '/";
    let init = "';\nawait init({ module_or_path: '/";
    let end = "' });\n</script>\n</body>\n</html>";
    proof {
        reveal_strlit(
            "<!DOCTYPE html>\n<html lang=\"en\">\n<head>\n  <title>stratego.io</title>\n  <meta charset=\"UTF-8\">\n  <meta name=\"viewport\" content=\"width=device-width, initial-scale=1\">\n  <meta name=\"description\" content=\"Open source HTML5 app that is a recreation of the classic game of Stratego\">\n  <link rel=\"icon\" type=\"image/x-icon\" href=\"/favicon.ico\" />\n  <link href=\"https://fonts.googleapis.com/css?family=Open+Sans\" rel=\"stylesheet\" type=\"text/css\">\n  <link rel=\"stylesheet\" type=\"text/css\" href=\"/style/graphics.css\">\n  <link rel=\"stylesheet\" type=\"text/css\" href=\"/style/main.css\">\n  <link rel=\"modulepreload\" href=\"/",
        );
        reveal_strlit("\">\n  <link rel=\"preload\" href=\"/");
        reveal_strlit(
            "\" as=\"fetch\" type=\"application/wasm\" crossorigin>\n</head>\n<body class=\"pace-done\">\n<script type=\"module\">\nimport init from '/",
        );
        reveal_strlit("';\nawait init({ module_or_path: '/");
        reveal_strlit("' });\n</script>\n</body>\n</html>");
    }
    let mut out = slice_copy(literal(head));
    push_all(&mut out, js);
    push_all(&mut out, literal(preload));
    push_all(&mut out, wasm);
    push_all(&mut out, literal(script));
    push_all(&mut out, js);
    push_all(&mut out, literal(init));
    push_all(&mut out, wasm);
    push_all(&mut out, literal(end));
    out
}

// ----- The bundle's files -----

/// What the compiled bundle lacks.
#[derive(Debug, Clone, Copy, PartialEq, Eq, Structural)]
pub enum BundleError {
    /// No file ends with `.js`.
    NoScript,
    /// No file ends with `_bg.wasm`.
    NoModule,
}

impl BundleError {
    /// The text that reports the error.
    pub fn message(&self) -> (r: &'static str)
        ensures
            r@ == (match self {
                BundleError::NoScript => "No .js file found in dist"@,
                BundleError::NoModule => "No _bg.wasm file found in dist"@,
            }),
    {
        match self {
            BundleError::NoScript => "No .js file found in dist",
            BundleError::NoModule => "No _bg.wasm file found in dist",
        }
    }
}

/// The last of `names` that ends with `suffix`.
pub open spec fn last_ending(names: Seq<Seq<u8>>, suffix: Seq<u8>) -> Option<Seq<u8>>
    decreases names.len(),
{
    if names.len() == 0 {
        None
    } else if ends_with(names.last(), suffix) {
        Some(names.last())
    } else {
        last_ending(names.drop_last(), suffix)
    }
}

/// The bytes of each name.
pub open spec fn names_view(names: Seq<Vec<u8>>) -> Seq<Seq<u8>> {
    names.map_values(|n: Vec<u8>| n@)
}

/// Of the file names of a compiled bundle, in the order they are listed,
/// the last script (`.js`) and the last WebAssembly module (`_bg.wasm`).
pub fn pick_bundle_files(names: &Vec<Vec<u8>>) -> (res: Result<(Vec<u8>, Vec<u8>), BundleError>)
    ensures
        ({
            let js = last_ending(names_view(names@), ascii(".js"@));
            let wasm = last_ending(names_view(names@), ascii("_bg.wasm"@));
            match res {
                Ok((j, w)) => js == Some(j@) && wasm == Some(w@),
                Err(BundleError::NoScript) => js is None,
                Err(BundleError::NoModule) => js is Some && wasm is None,
            }
        }),
{
    let js_ext = ".js";
    let wasm_ext = "_bg.wasm";
    proof {
        reveal_strlit(".js");
        reveal_strlit("_bg.wasm");
    }
    let js_ext = literal(js_ext);
    let wasm_ext = literal(wasm_ext);
    let ghost view = names_view(names@);
    let mut js: Option<Vec<u8>> = None;
    let mut wasm: Option<Vec<u8>> = None;
    let mut i: usize = 0;
    while i < names.len()
        invariant
            i <= names.len(),
            view == names_view(names@),
            js_ext@ == ascii(".js"@),
            wasm_ext@ == ascii("_bg.wasm"@),
            last_ending(view.subrange(0, i as int), ascii(".js"@)) == (match js {
                Some(v) => Some(v@),
                None => None::<Seq<u8>>,
            }),
            last_ending(view.subrange(0, i as int), ascii("_bg.wasm"@)) == (match wasm {
                Some(v) => Some(v@),
                None => None::<Seq<u8>>,
            }),
        decreases names.len() - i,
    {
        let name = &names[i];
        proof {
            reveal_strlit(".js");
            reveal_strlit("_bg.wasm");
        }
        assert(view.subrange(0, i + 1).drop_last() =~= view.subrange(0, i as int));
        assert(view.subrange(0, i + 1).last() == name@);
        if has_suffix(name.as_slice(), js_ext) {
            assert(!ends_with(name@, ascii("_bg.wasm"@))) by {
                let len = name@.len() as int;
                assert(name@.subrange(len - 3, len)[2] == name@[len - 1]);
                assert(name@[len - 1] == 115u8);
                if len >= 8 {
                    assert(name@.subrange(len - 8, len)[7] == name@[len - 1]);
                }
            }
            js = Some(slice_copy(name.as_slice()));
        } else if has_suffix(name.as_slice(), wasm_ext) {
            wasm = Some(slice_copy(name.as_slice()));
        }
        i += 1;
    }
    assert(view.subrange(0, i as int) =~= view);
    match js {
        None => Err(BundleError::NoScript),
        Some(j) => match wasm {
            None => Err(BundleError::NoModule),
            Some(w) => Ok((j, w)),
        },
    }
}

// ----- Trimming -----

/// Length of the whitespace character that ends `t`, or 0 where none does
/// (the characters of `ws_len`).
pub open spec fn ws_len_back(t: Seq<u8>) -> nat {
    let n = t.len();
    if n >= 1 && ((9 <= t[n - 1] <= 13) || t[n - 1] == 32) {
        1
    } else if n >= 2 && t[n - 2] == 0xc2 && (t[n - 1] == 0x85 || t[n - 1] == 0xa0) {
        2
    } else if n >= 3 && ((t[n - 3] == 0xe1 && t[n - 2] == 0x9a && t[n - 1] == 0x80) || (t[n
        - 3] == 0xe2 && t[n - 2] == 0x80 && ((0x80 <= t[n - 1] <= 0x8a) || t[n - 1] == 0xa8
        || t[n - 1] == 0xa9 || t[n - 1] == 0xaf)) || (t[n - 3] == 0xe2 && t[n - 2] == 0x81
        && t[n - 1] == 0x9f) || (t[n - 3] == 0xe3 && t[n - 2] == 0x80 && t[n - 1] == 0x80)) {
        3
    } else {
        0
    }
}

/// `t` without the whitespace it starts with.
pub open spec fn trim_front(t: Seq<u8>) -> Seq<u8>
    decreases t.len(),
{
    if ws_len(t, 0) > 0 {
        trim_front(t.subrange(ws_len(t, 0) as int, t.len() as int))
    } else {
        t
    }
}

/// `t` without the whitespace it ends with.
pub open spec fn trim_back(t: Seq<u8>) -> Seq<u8>
    decreases t.len(),
{
    if ws_len_back(t) > 0 {
        trim_back(t.subrange(0, t.len() - ws_len_back(t)))
    } else {
        t
    }
}

/// `t` without leading and trailing whitespace, as `str::trim` gives it.
pub open spec fn trimmed(t: Seq<u8>) -> Seq<u8> {
    trim_back(trim_front(t))
}

fn whitespace_len_back(t: &[u8], start: usize, end: usize) -> (n: usize)
    requires
        start <= end <= t.len(),
    ensures
        n == ws_len_back(t@.subrange(start as int, end as int)),
        n <= end - start,
{
    let len = end - start;
    if len >= 1 && ((9 <= t[end - 1] && t[end - 1] <= 13) || t[end - 1] == 32) {
        1
    } else if len >= 2 && t[end - 2] == 0xc2 && (t[end - 1] == 0x85 || t[end - 1] == 0xa0) {
        2
    } else if len >= 3 && ((t[end - 3] == 0xe1 && t[end - 2] == 0x9a && t[end - 1] == 0x80) || (
    t[end - 3] == 0xe2 && t[end - 2] == 0x80 && ((0x80 <= t[end - 1] && t[end - 1] <= 0x8a)
        || t[end - 1] == 0xa8 || t[end - 1] == 0xa9 || t[end - 1] == 0xaf)) || (t[end - 3]
        == 0xe2 && t[end - 2] == 0x81 && t[end - 1] == 0x9f) || (t[end - 3] == 0xe3 && t[end
        - 2] == 0x80 && t[end - 1] == 0x80)) {
        3
    } else {
        0
    }
}

/// The bytes of `line` without leading and trailing whitespace.
pub fn trim(line: &[u8]) -> (res: Vec<u8>)
    ensures
        res@ == trimmed(line@),
{
    let len = line.len();
    let mut a: usize = 0;
    assert(line@.subrange(0, len as int) =~= line@);
    loop
        invariant
            a <= len == line.len(),
            trim_front(line@) == trim_front(line@.subrange(a as int, len as int)),
        ensures
            a <= len,
            trim_front(line@) == line@.subrange(a as int, len as int),
        decreases len - a,
    {
        let ghost rest = line@.subrange(a as int, len as int);
        let n = whitespace_len(line, a);
        assert(ws_len(rest, 0) == n);
        if n == 0 {
            break;
        }
        assert(rest.subrange(n as int, rest.len() as int) =~= line@.subrange(
            a + n,
            len as int,
        ));
        a += n;
    }
    let ghost front = line@.subrange(a as int, len as int);
    let mut b: usize = len;
    loop
        invariant
            a <= b <= len == line.len(),
            front == line@.subrange(a as int, len as int),
            trim_back(front) == trim_back(line@.subrange(a as int, b as int)),
        ensures
            a <= b <= len,
            trim_back(front) == line@.subrange(a as int, b as int),
        decreases b - a,
    {
        let n = whitespace_len_back(line, a, b);
        if n == 0 {
            break;
        }
        let ghost piece = line@.subrange(a as int, b as int);
        assert(piece.subrange(0, piece.len() - n) =~= line@.subrange(a as int, b - n));
        b -= n;
    }
    slice_copy_range(line, a, b)
}

// ----- The lock file -----

/// What reading the bindings generator's version from the lock file met.
#[derive(Debug, Clone, Copy, PartialEq, Eq, Structural)]
pub enum LockError {
    /// The generator's `version` line is not of the form `version = "..."`.
    Unparsable,
    /// The lock file has no entry for the generator with a version.
    NotFound,
}

impl LockError {
    /// The text that reports the error.
    pub fn message(&self) -> (r: &'static str)
        ensures
            r@ == (match self {
                LockError::Unparsable => "Failed to parse wasm-bindgen version from Cargo.lock"@,
                LockError::NotFound => "wasm-bindgen not found in Cargo.lock"@,
            }),
    {
        match self {
            LockError::Unparsable => "Failed to parse wasm-bindgen version from Cargo.lock",
            LockError::NotFound => "wasm-bindgen not found in Cargo.lock",
        }
    }
}

/// `t` begins with `prefix`.
pub open spec fn starts_with(t: Seq<u8>, prefix: Seq<u8>) -> bool {
    prefix.len() <= t.len() && t.subrange(0, prefix.len() as int) == prefix
}

fn has_prefix(t: &[u8], prefix: &[u8]) -> (r: bool)
    ensures
        r == starts_with(t@, prefix@),
{
    if prefix.len() > t.len() {
        return false;
    }
    let mut k: usize = 0;
    while k < prefix.len()
        invariant
            prefix.len() <= t.len(),
            k <= prefix.len(),
            forall|j: int| 0 <= j < k ==> t@[j] == #[trigger] prefix@[j],
        decreases prefix.len() - k,
    {
        if t[k] != prefix[k] {
            assert(t@.subrange(0, prefix.len() as int)[k as int] != prefix@[k as int]);
            return false;
        }
        k += 1;
    }
    assert(t@.subrange(0, prefix.len() as int) =~= prefix@);
    true
}

/// The quoted value of a line `version = "<value>"`, if the line has that form.
pub open spec fn version_value(t: Seq<u8>) -> Option<Seq<u8>> {
    if t.len() >= 12 && starts_with(t, ascii("version = \""@)) && t[t.len() - 1] == 34 {
        Some(t.subrange(11, t.len() - 1))
    } else {
        None
    }
}

/// Where the line that starts at `start` ends: at its line feed, or at the
/// end of the text.
pub open spec fn line_end(s: Seq<u8>, start: nat) -> nat {
    match first_byte(s, 10, start) {
        Some(p) => p,
        None => s.len(),
    }
}

/// The version of the bindings generator that the lock file text `s` names,
/// reading its lines from the one that starts at `start`: a line (trimmed of
/// whitespace, a carriage return before the line feed among it) that reads
/// `[[package]]` opens a new entry, one that reads `name = "wasm-bindgen"`
/// opens the generator's entry, and the first line within the generator's
/// entry that begins with `version = ` gives its version.
pub open spec fn locked_version(s: Seq<u8>, start: nat, in_entry: bool) -> Result<
    Seq<u8>,
    LockError,
>
    decreases s.len() - start,
{
    if start >= s.len() {
        Err(LockError::NotFound)
    } else {
        let end = line_end(s, start);
        let t = trimmed(s.subrange(start as int, end as int));
        proof {
            lemma_first_byte_found(s, 10, start);
        }
        if in_entry && t != ascii("[[package]]"@) && t != ascii("name = \"wasm-bindgen\""@)
            && starts_with(t, ascii("version = "@)) {
            match version_value(t) {
                Some(v) => Ok(v),
                None => Err(LockError::Unparsable),
            }
        } else if end >= s.len() {
            Err(LockError::NotFound)
        } else if t == ascii("[[package]]"@) {
            locked_version(s, end + 1, false)
        } else if t == ascii("name = \"wasm-bindgen\""@) {
            locked_version(s, end + 1, true)
        } else {
            locked_version(s, end + 1, in_entry)
        }
    }
}

/// The version of the bindings generator (`wasm-bindgen`) that the lock file
/// text `lock` names.
pub fn wasm_bindgen_version(lock: &[u8]) -> (res: Result<Vec<u8>, LockError>)
    ensures
        match res {
            Ok(v) => locked_version(lock@, 0, false) == Ok::<Seq<u8>, LockError>(v@),
            Err(e) => locked_version(lock@, 0, false) == Err::<Seq<u8>, LockError>(e),
        },
{
    let package = "[[package]]";
    let name = "name = \"wasm-bindgen\"";
    let version = "version = ";
    let quoted = "version = \"";
    proof {
        reveal_strlit("[[package]]");
        reveal_strlit("name = \"wasm-bindgen\"");
        reveal_strlit("version = ");
        reveal_strlit("version = \"");
    }
    let package = literal(package);
    let name = literal(name);
    let version = literal(version);
    let quoted = literal(quoted);
    let mut in_entry = false;
    let mut start: usize = 0;
    while start < lock.len()
        invariant
            start <= lock.len(),
            package@ == ascii("[[package]]"@),
            name@ == ascii("name = \"wasm-bindgen\""@),
            version@ == ascii("version = "@),
            quoted@ == ascii("version = \""@),
            locked_version(lock@, 0, false) == locked_version(lock@, start as nat, in_entry),
        decreases lock.len() - start,
    {
        let end = match find_byte(lock, 10, start) {
            Some(p) => p,
            None => lock.len(),
        };
        proof {
            lemma_first_byte_found(lock@, 10, start as nat);
        }
        assert(end as nat == line_end(lock@, start as nat));
        let line = slice_copy_range(lock, start, end);
        let t = trim(line.as_slice());
        if bytes_equal(t.as_slice(), package) {
            in_entry = false;
        } else if bytes_equal(t.as_slice(), name) {
            in_entry = true;
        } else if in_entry && has_prefix(t.as_slice(), version) {
            let n = t.len();
            if n >= 12 && has_prefix(t.as_slice(), quoted) && t[n - 1] == 34 {
                return Ok(slice_copy_range(t.as_slice(), 11, n - 1));
            } else {
                return Err(LockError::Unparsable);
            }
        }
        if end >= lock.len() {
            return Err(LockError::NotFound);
        }
        start = end + 1;
    }
    Err(LockError::NotFound)
}

// ----- The generator's reported version -----

/// `needle` occurs somewhere in `hay`.
pub open spec fn occurs_in(hay: Seq<u8>, needle: Seq<u8>) -> bool {
    exists|i: int| 0 <= i && i + needle.len() <= hay.len() && #[trigger] hay.subrange(i, i + needle.len()) == needle
}

/// Whether what the installed generator reports (`output`) mentions the
/// wanted `version`.
pub fn output_mentions(output: &[u8], version: &[u8]) -> (r: bool)
    ensures
        r == occurs_in(output@, version@),
{
    let n = version.len();
    if n > output.len() {
        assert forall|i: int| 0 <= i && i + n <= output@.len() implies #[trigger] output@.subrange(
            i,
            i + n,
        ) != version@ by {}
        return false;
    }
    let last = output.len() - n;
    let mut i: usize = 0;
    loop
        invariant
            n == version.len() <= output.len(),
            last == output.len() - n,
            i <= last,
            forall|j: int| 0 <= j < i ==> #[trigger] output@.subrange(j, j + n) != version@,
        ensures
            forall|j: int| 0 <= j <= last ==> #[trigger] output@.subrange(j, j + n) != version@,
        decreases last - i,
    {
        let piece = slice_copy_range(output, i, i + n);
        if bytes_equal(piece.as_slice(), version) {
            assert(output@.subrange(i as int, i + n) == version@);
            return true;
        }
        if i == last {
            break;
        }
        i += 1;
    }
    assert forall|j: int| 0 <= j && j + n <= output@.len() implies #[trigger] output@.subrange(
        j,
        j + n,
    ) != version@ by {}
    false
}

} // verus!
