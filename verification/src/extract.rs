//! Verified extraction rules over raw text: the course-file reference
//! pattern in URLs, the filename capture of a Content-Disposition header,
//! and the epoch-millisecond capture of the video portal's `/Date(...)/`
//! start-time format.

use vstd::prelude::*;
use vstd::string::*;

use crate::textutil::{
    all_digits, digits_val, is_digit_char, match_at, occurs_at, parse_u64_digits,
};

verus! {

/// A course-file reference stands in `s` at `i` (the path prefix) and `j`
/// (the file part): `/courses/` then digits then `/files/` then a digit.
pub open spec fn course_file_at(s: Seq<char>, i: int, j: int) -> bool {
    &&& occurs_at(s, "/courses/"@, i)
    &&& i + 10 <= j
    &&& forall|k: int| i + 9 <= k < j ==> is_digit_char(s[k])
    &&& occurs_at(s, "/files/"@, j)
    &&& j + 7 < s.len()
    &&& is_digit_char(s[j + 7])
}

/// Somewhere in `s` stands a course-file reference.
pub open spec fn has_course_file_ref(s: Seq<char>) -> bool {
    exists|i: int, j: int| course_file_at(s, i, j)
}

fn char_is_digit(c: char) -> (r: bool)
    ensures
        r == is_digit_char(c),
{
    let v = c as u32;
    48 <= v && v <= 57
}

/// Whether a URL path refers to a file of a course: it carries
/// `/courses/<digits>/files/<digits>` somewhere.
pub fn contains_course_file_ref(s: &str) -> (r: bool)
    ensures
        r == has_course_file_ref(s@),
{
    proof {
        reveal_strlit("/courses/");
        reveal_strlit("/files/");
    }
    let sl = s.unicode_len();
    let mut i: usize = 0;
    while i < sl
        invariant
            i <= sl,
            sl == s@.len(),
            "/courses/"@.len() == 9,
            "/files/"@.len() == 7,
            "/files/"@[0] == '/',
            forall|i2: int, j2: int| 0 <= i2 < i ==> !course_file_at(s@, i2, j2),
        decreases sl - i,
    {
        if sl - i >= 9 && match_at(s, "/courses/", i) {
            let mut j: usize = i + 9;
            while j < sl && char_is_digit(s.get_char(j))
                invariant
                    i + 9 <= j <= sl,
                    sl == s@.len(),
                    forall|k: int| i + 9 <= k < j ==> is_digit_char(s@[k]),
                decreases sl - j,
            {
                j = j + 1;
            }
            // j is the first non-digit position after the run (or the end)
            if j > i + 9 && sl - j >= 8 && match_at(s, "/files/", j) {
                if char_is_digit(s.get_char(j + 7)) {
                    proof {
                        assert(course_file_at(s@, i as int, j as int));
                    }
                    return true;
                }
            }
            proof {
                assert forall|j2: int| !course_file_at(s@, i as int, j2) by {
                    if course_file_at(s@, i as int, j2) {
                        assert(s@.subrange(j2, j2 + 7)[0] == s@[j2]);
                        assert(!is_digit_char(s@[j2]));
                        if j2 < j {
                            assert(is_digit_char(s@[j2]));
                        } else if j2 > j {
                            assert(j < sl);
                            assert(is_digit_char(s@[j as int]));
                        }
                    }
                }
            }
        } else {
            proof {
                assert forall|j2: int| !course_file_at(s@, i as int, j2) by {
                    if course_file_at(s@, i as int, j2) {
                    }
                }
            }
        }
        i = i + 1;
    }
    proof {
        assert forall|i2: int, j2: int| !course_file_at(s@, i2, j2) by {
            if course_file_at(s@, i2, j2) {
                assert(0 <= i2 < sl);
            }
        }
    }
    false
}

/// The filename capture of a Content-Disposition header: the text between
/// the first `filename="` marker and the last quote of the header, that
/// quote standing after the marker.
pub open spec fn cd_filename_at(s: Seq<char>, i: int, q: int) -> bool {
    &&& occurs_at(s, "filename=\""@, i)
    &&& forall|i2: int| 0 <= i2 < i ==> !occurs_at(s, "filename=\""@, i2)
    &&& i + 10 <= q < s.len()
    &&& s[q] == '"'
    &&& forall|q2: int| q < q2 < s.len() ==> s[q2] != '"'
}

/// Extracts the filename a Content-Disposition header advertises, if any.
pub fn content_disposition_filename(h: &str) -> (r: Option<String>)
    ensures
        forall|i: int, q: int|
            cd_filename_at(h@, i, q) ==> r is Some && r.unwrap()@ == h@.subrange(i + 10, q),
        (forall|i: int, q: int| !cd_filename_at(h@, i, q)) ==> r is None,
{
    proof {
        reveal_strlit("filename=\"");
    }
    let sl = h.unicode_len();
    let mut i: usize = 0;
    let mut found = false;
    while i < sl && !found
        invariant
            i <= sl,
            sl == h@.len(),
            "filename=\""@.len() == 10,
            found ==> occurs_at(h@, "filename=\""@, i as int),
            forall|i2: int| 0 <= i2 < i ==> !occurs_at(h@, "filename=\""@, i2),
        decreases sl - i + if found {
            0int
        } else {
            1int
        },
    {
        if sl - i >= 10 && match_at(h, "filename=\"", i) {
            found = true;
        } else {
            i = i + 1;
        }
    }
    if !found {
        proof {
            assert forall|i2: int, q2: int| !cd_filename_at(h@, i2, q2) by {
                if cd_filename_at(h@, i2, q2) {
                    assert(0 <= i2 < sl);
                }
            }
        }
        return None;
    }
    // scan from the end for the last quote
    let mut q: usize = sl;
    while q > 0
        invariant
            q <= sl,
            sl == h@.len(),
            i + 10 <= sl,
            occurs_at(h@, "filename=\""@, i as int),
            forall|i2: int| 0 <= i2 < i ==> !occurs_at(h@, "filename=\""@, i2),
            "filename=\""@.len() == 10,
            "filename=\""@[9] == '"',
            forall|q2: int| q <= q2 < sl ==> h@[q2] != '"',
        decreases q,
    {
        if h.get_char(q - 1) == '"' {
            if q - 1 >= i + 10 {
                let cap = h.substring_char(i + 10, q - 1).to_owned();
                proof {
                    assert(cd_filename_at(h@, i as int, q - 1));
                    assert forall|i2: int, q2: int| cd_filename_at(h@, i2, q2) implies i2 == i
                        && q2 == q - 1 by {
                        assert(h@.subrange(i as int, i + 10)[9] == h@[i + 9]);
                    }
                }
                return Some(cap);
            } else {
                proof {
                    // the last quote is the marker's own: no capture closes it
                    assert forall|i2: int, q2: int| !cd_filename_at(h@, i2, q2) by {
                        if cd_filename_at(h@, i2, q2) {
                            assert(i2 == i) by {
                                if i2 < i {
                                } else if i2 > i {
                                }
                            }
                            assert(h@[q2] == '"');
                        }
                    }
                }
                return None;
            }
        }
        q = q - 1;
    }
    proof {
        // no quote at all cannot happen past the marker; still, no match
        assert forall|i2: int, q2: int| !cd_filename_at(h@, i2, q2) by {
            if cd_filename_at(h@, i2, q2) {
                assert(h@[q2] == '"');
            }
        }
    }
    None
}

/// An epoch-millisecond capture stands in `s` at `i` and `j`: the marker
/// `/Date(` at `i`, a nonempty digit run up to `j`, and `)/` at `j`.
pub open spec fn date_at(s: Seq<char>, i: int, j: int) -> bool {
    &&& occurs_at(s, "/Date("@, i)
    &&& i + 7 <= j
    &&& forall|k: int| i + 6 <= k < j ==> is_digit_char(s[k])
    &&& occurs_at(s, ")/"@, j)
}

/// The first such capture: none stands earlier.
pub open spec fn date_first_at(s: Seq<char>, i: int, j: int) -> bool {
    &&& date_at(s, i, j)
    &&& forall|i2: int, j2: int| 0 <= i2 < i ==> !date_at(s, i2, j2)
}

/// Extracts the epoch milliseconds of the video portal's `/Date(...)/`
/// start-time format: the first capture, when its value fits a signed
/// 64-bit count.
pub fn start_time_millis(s: &str) -> (r: Option<i64>)
    ensures
        forall|i: int, j: int|
            date_first_at(s@, i, j) ==> r == (if digits_val(s@.subrange(i + 6, j)) <= i64::MAX {
                Some(digits_val(s@.subrange(i + 6, j)) as i64)
            } else {
                None::<i64>
            }),
        (forall|i: int, j: int| !date_at(s@, i, j)) ==> r is None,
{
    proof {
        reveal_strlit("/Date(");
        reveal_strlit(")/");
    }
    let sl = s.unicode_len();
    let mut i: usize = 0;
    while i < sl
        invariant
            i <= sl,
            sl == s@.len(),
            "/Date("@.len() == 6,
            ")/"@.len() == 2,
            ")/"@[0] == ')',
            forall|i2: int, j2: int| 0 <= i2 < i ==> !date_at(s@, i2, j2),
        decreases sl - i,
    {
        if sl - i >= 6 && match_at(s, "/Date(", i) {
            let mut j: usize = i + 6;
            while j < sl && char_is_digit(s.get_char(j))
                invariant
                    i + 6 <= j <= sl,
                    sl == s@.len(),
                    forall|k: int| i + 6 <= k < j ==> is_digit_char(s@[k]),
                decreases sl - j,
            {
                j = j + 1;
            }
            if j > i + 6 && sl - j >= 2 && match_at(s, ")/", j) {
                proof {
                    assert(date_at(s@, i as int, j as int));
                    assert forall|i2: int, j2: int| date_first_at(s@, i2, j2) implies i2 == i
                        && j2 == j by {
                        if i2 < i {
                        } else if i2 > i {
                            assert(!date_at(s@, i as int, j as int));
                        } else {
                            // the digit run pins j2: the close paren is no digit
                            assert(s@.subrange(j2, j2 + 2)[0] == s@[j2]);
                            if j2 < j {
                                assert(is_digit_char(s@[j2]));
                            } else if j2 > j {
                                assert(is_digit_char(s@[j as int]));
                            }
                        }
                    }
                }
                let digits = s.substring_char(i + 6, j);
                let parsed = parse_u64_digits(digits);
                proof {
                    assert(all_digits(s@.subrange(i + 6, j as int)));
                    assert(s@.subrange(i + 6, j as int).len() >= 1);
                }
                match parsed {
                    Some(v) => {
                        if v <= 0x7fff_ffff_ffff_ffff {
                            return Some(v as i64);
                        } else {
                            return None;
                        }
                    },
                    None => {
                        proof {
                            assert(digits_val(s@.subrange(i + 6, j as int)) > u64::MAX);
                        }
                        return None;
                    },
                }
            }
            proof {
                assert forall|j2: int| !date_at(s@, i as int, j2) by {
                    if date_at(s@, i as int, j2) {
                        assert(s@.subrange(j2, j2 + 2)[0] == s@[j2]);
                        assert(!is_digit_char(s@[j2]));
                        if j2 < j {
                            assert(is_digit_char(s@[j2]));
                        } else if j2 > j {
                            assert(j < sl);
                            assert(is_digit_char(s@[j as int]));
                        }
                    }
                }
            }
        } else {
            proof {
                assert forall|j2: int| !date_at(s@, i as int, j2) by {
                    if date_at(s@, i as int, j2) {
                    }
                }
            }
        }
        i = i + 1;
    }
    proof {
        assert forall|i2: int, j2: int| !date_at(s@, i2, j2) by {
            if date_at(s@, i2, j2) {
                assert(0 <= i2 < sl);
            }
        }
    }
    None
}

} // verus!
