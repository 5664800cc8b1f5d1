//! Local names for remote things: folder-name sanitization, filesystem-safe
//! file names, target paths, and the deterministic temp-file name a
//! download writes to before its atomic rename.

use vstd::prelude::*;
use vstd::string::*;

use crate::textutil::{decimal_of, path_join, push_char, u64_to_decimal};

verus! {

/// A whitespace character, as trimmed from the ends of folder names.
pub open spec fn is_space_char(c: char) -> bool {
    ||| c as u32 == 0x9
    ||| c as u32 == 0xA
    ||| c as u32 == 0xB
    ||| c as u32 == 0xC
    ||| c as u32 == 0xD
    ||| c as u32 == 0x20
    ||| c as u32 == 0x85
    ||| c as u32 == 0xA0
    ||| c as u32 == 0x1680
    ||| 0x2000 <= c as u32 <= 0x200A
    ||| c as u32 == 0x2028
    ||| c as u32 == 0x2029
    ||| c as u32 == 0x202F
    ||| c as u32 == 0x205F
    ||| c as u32 == 0x3000
}

fn char_is_space(c: char) -> (r: bool)
    ensures
        r == is_space_char(c),
{
    let v = c as u32;
    v == 0x9 || v == 0xA || v == 0xB || v == 0xC || v == 0xD || v == 0x20 || v == 0x85 || v == 0xA0
        || v == 0x1680 || (0x2000 <= v && v <= 0x200A) || v == 0x2028 || v == 0x2029 || v == 0x202F
        || v == 0x205F || v == 0x3000
}

/// A character folder-name sanitization removes.
pub open spec fn folder_char_removed(c: char) -> bool {
    ||| c == '/'
    ||| c == '?'
    ||| c == '<'
    ||| c == '.'
    ||| c == '"'
    ||| c == '>'
    ||| c == '\\'
    ||| c == ':'
    ||| c == '*'
    ||| c == '|'
}

fn char_is_removed(c: char) -> (r: bool)
    ensures
        r == folder_char_removed(c),
{
    c == '/' || c == '?' || c == '<' || c == '.' || c == '"' || c == '>' || c == '\\' || c == ':'
        || c == '*' || c == '|'
}

/// `s` with every removed character dropped, order kept.
pub open spec fn folder_filtered(s: Seq<char>) -> Seq<char>
    decreases s.len(),
{
    if s.len() == 0 {
        Seq::empty()
    } else {
        let rest = folder_filtered(s.drop_last());
        if folder_char_removed(s.last()) {
            rest
        } else {
            rest.push(s.last())
        }
    }
}

/// Leading whitespace dropped.
pub open spec fn trim_front(s: Seq<char>) -> Seq<char>
    decreases s.len(),
{
    if s.len() > 0 && is_space_char(s[0]) {
        trim_front(s.drop_first())
    } else {
        s
    }
}

/// Trailing whitespace dropped.
pub open spec fn trim_back(s: Seq<char>) -> Seq<char>
    decreases s.len(),
{
    if s.len() > 0 && is_space_char(s.last()) {
        trim_back(s.drop_last())
    } else {
        s
    }
}

/// What folder-name sanitization yields: the offending characters removed,
/// then both ends trimmed of whitespace.
pub open spec fn folder_name_of(s: Seq<char>) -> Seq<char> {
    trim_back(trim_front(folder_filtered(s)))
}

proof fn lemma_trim_front_at(s: Seq<char>, k: int)
    requires
        0 <= k <= s.len(),
        forall|j: int| 0 <= j < k ==> is_space_char(s[j]),
        k < s.len() ==> !is_space_char(s[k]),
    ensures
        trim_front(s) == s.subrange(k, s.len() as int),
    decreases k,
{
    if k == 0 {
        assert(s.subrange(0, s.len() as int) =~= s);
    } else {
        let t = s.drop_first();
        assert(forall|j: int| 0 <= j < k - 1 ==> is_space_char(t[j]));
        lemma_trim_front_at(t, k - 1);
        assert(t.subrange(k - 1, t.len() as int) =~= s.subrange(k, s.len() as int));
    }
}

proof fn lemma_trim_back_at(s: Seq<char>, k: int)
    requires
        0 <= k <= s.len(),
        forall|j: int| k <= j < s.len() ==> is_space_char(s[j]),
        k > 0 ==> !is_space_char(s[k - 1]),
    ensures
        trim_back(s) == s.take(k),
    decreases s.len() - k,
{
    if k == s.len() {
        assert(s.take(k) =~= s);
    } else {
        let t = s.drop_last();
        assert(forall|j: int| k <= j < t.len() ==> is_space_char(t[j]));
        lemma_trim_back_at(t, k);
        assert(t.take(k) =~= s.take(k));
    }
}

/// Sanitizes a folder name: drops the characters a filesystem refuses in
/// directory names and trims surrounding whitespace.
pub fn sanitize_foldername(name: &str) -> (r: String)
    ensures
        r@ == folder_name_of(name@),
{
    let sl = name.unicode_len();
    let mut kept: Vec<char> = Vec::new();
    let mut i: usize = 0;
    while i < sl
        invariant
            i <= sl,
            sl == name@.len(),
            kept@ == folder_filtered(name@.take(i as int)),
        decreases sl - i,
    {
        let c = name.get_char(i);
        proof {
            assert(name@.take(i + 1).drop_last() =~= name@.take(i as int));
            assert(name@.take(i + 1).last() == c);
        }
        if !char_is_removed(c) {
            kept.push(c);
        }
        i = i + 1;
    }
    proof {
        assert(name@.take(sl as int) =~= name@);
    }
    let n = kept.len();
    let mut a: usize = 0;
    while a < n && char_is_space(kept[a])
        invariant
            a <= n,
            n == kept@.len(),
            forall|j: int| 0 <= j < a ==> is_space_char(kept@[j]),
        decreases n - a,
    {
        a = a + 1;
    }
    let mut b: usize = n;
    while b > a && char_is_space(kept[b - 1])
        invariant
            a <= b <= n,
            n == kept@.len(),
            forall|j: int| b <= j < n ==> is_space_char(kept@[j]),
        decreases b,
    {
        b = b - 1;
    }
    proof {
        let fs = kept@;
        lemma_trim_front_at(fs, a as int);
        let t = fs.subrange(a as int, n as int);
        assert(forall|j: int| b - a <= j < t.len() ==> is_space_char(t[j]));
        lemma_trim_back_at(t, b - a);
        assert(t.take(b - a) =~= fs.subrange(a as int, b as int));
    }
    let mut r = String::new();
    let mut k: usize = a;
    while k < b
        invariant
            a <= k <= b <= n,
            n == kept@.len(),
            r@ == kept@.subrange(a as int, k as int),
        decreases b - k,
    {
        let c = kept[k];
        push_char(&mut r, c);
        proof {
            assert(kept@.subrange(a as int, k + 1) =~= kept@.subrange(a as int, k as int).push(
                kept@[k as int],
            ));
        }
        k = k + 1;
    }
    r
}

/// The filesystem-safe file name that the sanitizer of the outside
/// filename-sanitizing library produces for `name`: a function of the name
/// alone under the fixed options used here.
pub uninterp spec fn sanitized_of(name: Seq<char>) -> Seq<char>;

/// Relies on `sanitize_filename::sanitize_with_options`, called with fixed
/// options (portable rules rather than the host's, truncation on, empty
/// replacement), so the result depends on the name alone: illegal, control
/// and reserved sequences removed or truncated per that crate.
#[verifier::external_body]
fn sanitize_file_name(name: &str) -> (r: String)
    ensures
        r@ == sanitized_of(name@),
{
    sanitize_filename::sanitize_with_options(
        name,
        sanitize_filename::Options { windows: false, truncate: true, replacement: "" },
    )
}

/// The filesystem-safe name of one remote thing, with nothing joined on.
pub fn target_name(name: &str) -> (r: String)
    ensures
        r@ == sanitized_of(name@),
{
    sanitize_file_name(name)
}

/// The local target path the change filter assigns to a candidate:
/// `base/` plus the sanitized display name.
pub fn target_path_for(base: &str, display_name: &str) -> (r: String)
    ensures
        r@ == base@.push('/') + sanitized_of(display_name@),
{
    let name = sanitize_file_name(display_name);
    path_join(base, name.as_str())
}

/// The initial state of the 64-bit folded name hash.
pub open spec fn name_hash_seed() -> u64 {
    0xcbf29ce484222325u64
}

/// One step of the folded name hash: xor the character in, multiply by the
/// prime, keep the low 64 bits.
pub open spec fn name_hash_step(h: u64, v: u64) -> u64 {
    ((((h ^ v) as int) * 0x100000001b3) % 0x10000000000000000) as u64
}

/// The 64-bit hash of a name, folded left to right.
pub open spec fn name_hash(s: Seq<char>) -> u64
    decreases s.len(),
{
    if s.len() == 0 {
        name_hash_seed()
    } else {
        name_hash_step(name_hash(s.drop_last()), s.last() as u64)
    }
}

/// Hashes a display name for the temp-file name.
pub fn hash_name(s: &str) -> (h: u64)
    ensures
        h == name_hash(s@),
{
    let sl = s.unicode_len();
    let mut h: u64 = 0xcbf29ce484222325;
    let mut i: usize = 0;
    while i < sl
        invariant
            i <= sl,
            sl == s@.len(),
            h == name_hash(s@.take(i as int)),
        decreases sl - i,
    {
        let c = s.get_char(i);
        proof {
            assert(s@.take(i + 1).drop_last() =~= s@.take(i as int));
            assert(s@.take(i + 1).last() == c);
        }
        let v: u64 = (c as u32) as u64;
        h = (h ^ v).wrapping_mul(0x100000001b3);
        i = i + 1;
    }
    proof {
        assert(s@.take(sl as int) =~= s@);
    }
    h
}

/// The deterministic temp-file name a download writes to, beside its final
/// target: the decimal hash of the display name with the fixed suffix.
pub fn temp_name_for(display_name: &str) -> (r: String)
    ensures
        r@ == decimal_of(name_hash(display_name@) as nat) + ".tmp"@,
{
    let h = hash_name(display_name);
    let mut r = u64_to_decimal(h);
    r.append(".tmp");
    r
}

} // verus!
