//! Field validation: trimming, length bounds, and character classes.
//!
//! Each validator either returns the trimmed value or a single-field
//! validation error, and its contract states exactly which inputs are
//! accepted.

use vstd::prelude::*;

use crate::error::{AppError, FieldError};

verus! {

pub const TITLE_MIN: usize = 1;

pub const TITLE_MAX: usize = 200;

pub const DESCRIPTION_MAX: usize = 2000;

pub const ITEM_CONTENT_MIN: usize = 1;

pub const ITEM_CONTENT_MAX: usize = 2000;

pub const USERNAME_MIN: usize = 3;

pub const USERNAME_MAX: usize = 32;

pub const DISPLAY_NAME_MAX: usize = 64;

pub const API_KEY_NAME_MAX: usize = 100;

pub const SLUG_MIN: usize = 3;

pub const SLUG_MAX: usize = 50;

/// The whitespace characters stripped from either end of an input.
pub open spec fn is_space_char(c: char) -> bool {
    c == ' ' || c == '\t' || c == '\n' || c == '\r'
}

pub open spec fn trim_start_spec(s: Seq<char>) -> Seq<char>
    decreases s.len(),
{
    if s.len() > 0 && is_space_char(s[0]) {
        trim_start_spec(s.drop_first())
    } else {
        s
    }
}

pub open spec fn trim_end_spec(s: Seq<char>) -> Seq<char>
    decreases s.len(),
{
    if s.len() > 0 && is_space_char(s.last()) {
        trim_end_spec(s.drop_last())
    } else {
        s
    }
}

/// What [`trim`] returns: the input without leading and trailing whitespace.
pub open spec fn trim_spec(s: Seq<char>) -> Seq<char> {
    trim_end_spec(trim_start_spec(s))
}

proof fn lemma_trim_start(s: Seq<char>, i: int)
    requires
        0 <= i <= s.len(),
        forall|k: int| 0 <= k < i ==> is_space_char(s[k]),
        i < s.len() ==> !is_space_char(s[i]),
    ensures
        trim_start_spec(s) == s.subrange(i, s.len() as int),
    decreases i,
{
    if i == 0 {
        assert(s.subrange(0, s.len() as int) =~= s);
    } else {
        assert(is_space_char(s[0]));
        lemma_trim_start(s.drop_first(), i - 1);
        assert(s.drop_first().subrange(i - 1, s.drop_first().len() as int) =~= s.subrange(
            i,
            s.len() as int,
        ));
    }
}

proof fn lemma_trim_end(s: Seq<char>, j: int)
    requires
        0 <= j <= s.len(),
        forall|k: int| j <= k < s.len() ==> is_space_char(s[k]),
        j > 0 ==> !is_space_char(s[j - 1]),
    ensures
        trim_end_spec(s) == s.subrange(0, j),
    decreases s.len() - j,
{
    if j == s.len() {
        assert(s.subrange(0, j) =~= s);
    } else {
        assert(is_space_char(s.last()));
        lemma_trim_end(s.drop_last(), j);
        assert(s.drop_last().subrange(0, j) =~= s.subrange(0, j));
    }
}

/// Strips leading and trailing whitespace.
pub fn trim(s: &str) -> (r: String)
    ensures
        r@ == trim_spec(s@),
{
    let n: usize = s.unicode_len();
    let mut start: usize = 0;
    while start < n && is_space_exec(s.get_char(start))
        invariant
            0 <= start <= n,
            n == s@.len(),
            forall|k: int| 0 <= k < start ==> is_space_char(s@[k]),
        decreases n - start,
    {
        start = start + 1;
    }
    proof {
        lemma_trim_start(s@, start as int);
    }
    let mut end: usize = n;
    while end > start && is_space_exec(s.get_char(end - 1))
        invariant
            start <= end <= n,
            n == s@.len(),
            forall|k: int| end <= k < n ==> is_space_char(s@[k]),
        decreases end,
    {
        end = end - 1;
    }
    proof {
        let t = s@.subrange(start as int, n as int);
        lemma_trim_end(t, end - start as int);
        assert(t.subrange(0, end - start as int) =~= s@.subrange(start as int, end as int));
    }
    s.substring_char(start, end).to_owned()
}

fn is_space_exec(c: char) -> (r: bool)
    ensures
        r == is_space_char(c),
{
    c == ' ' || c == '\t' || c == '\n' || c == '\r'
}

/// Holds when `e` is a validation error with exactly one entry for `field`
/// carrying `message`.
pub open spec fn is_single_validation(e: AppError, field: Seq<char>, message: Seq<char>) -> bool {
    &&& e matches AppError::Validation(v)
    &&& v@.len() == 1
    &&& v@[0].field@ == field
    &&& v@[0].message@ == message
}

fn single_validation(field: &str, message: &str) -> (e: AppError)
    ensures
        is_single_validation(e, field@, message@),
{
    let mut v: Vec<FieldError> = Vec::new();
    v.push(FieldError { field: field.to_owned(), message: message.to_owned() });
    AppError::Validation(v)
}

pub open spec fn title_ok(s: Seq<char>) -> bool {
    TITLE_MIN <= trim_spec(s).len() <= TITLE_MAX
}

/// Accepts a title of 1 to 200 characters after trimming.
pub fn validate_title(input: &str) -> (r: Result<String, AppError>)
    ensures
        title_ok(input@) ==> (r matches Ok(v) && v@ == trim_spec(input@)),
        !title_ok(input@) ==> (r matches Err(e) && is_single_validation(
            e,
            "title"@,
            "Title must be between 1 and 200 characters"@,
        )),
{
    let v = trim(input);
    let len: usize = v.as_str().unicode_len();
    if len < TITLE_MIN || len > TITLE_MAX {
        Err(single_validation("title", "Title must be between 1 and 200 characters"))
    } else {
        Ok(v)
    }
}

pub open spec fn description_ok(s: Seq<char>) -> bool {
    trim_spec(s).len() <= DESCRIPTION_MAX
}

/// Accepts an absent description, or one of at most 2000 characters after
/// trimming.
pub fn validate_description(input: &Option<String>) -> (r: Result<Option<String>, AppError>)
    ensures
        input is None ==> (r matches Ok(o) && o is None),
        input is Some && description_ok(input->0@) ==> (r matches Ok(o) && o matches Some(v)
            && v@ == trim_spec(input->0@)),
        input is Some && !description_ok(input->0@) ==> (r matches Err(e) && is_single_validation(
            e,
            "description"@,
            "Description must be at most 2000 characters"@,
        )),
{
    match input {
        Some(s) => {
            let v = trim(s.as_str());
            let len: usize = v.as_str().unicode_len();
            if len > DESCRIPTION_MAX {
                Err(single_validation("description", "Description must be at most 2000 characters"))
            } else {
                Ok(Some(v))
            }
        },
        None => Ok(None),
    }
}

pub open spec fn item_content_ok(s: Seq<char>) -> bool {
    ITEM_CONTENT_MIN <= trim_spec(s).len() <= ITEM_CONTENT_MAX
}

/// Accepts item content of 1 to 2000 characters after trimming.
pub fn validate_item_content(input: &str) -> (r: Result<String, AppError>)
    ensures
        item_content_ok(input@) ==> (r matches Ok(v) && v@ == trim_spec(input@)),
        !item_content_ok(input@) ==> (r matches Err(e) && is_single_validation(
            e,
            "content"@,
            "Item content must be between 1 and 2000 characters"@,
        )),
{
    let v = trim(input);
    let len: usize = v.as_str().unicode_len();
    if len < ITEM_CONTENT_MIN || len > ITEM_CONTENT_MAX {
        Err(single_validation("content", "Item content must be between 1 and 2000 characters"))
    } else {
        Ok(v)
    }
}

/// Letters, digits, underscore, dot and hyphen.
pub open spec fn is_username_char(c: char) -> bool {
    ||| 65 <= (c as u32) <= 90
    ||| 97 <= (c as u32) <= 122
    ||| 48 <= (c as u32) <= 57
    ||| c == '_'
    ||| c == '.'
    ||| c == '-'
}

fn is_username_char_exec(c: char) -> (r: bool)
    ensures
        r == is_username_char(c),
{
    let u = c as u32;
    (65 <= u && u <= 90) || (97 <= u && u <= 122) || (48 <= u && u <= 57) || c == '_' || c == '.'
        || c == '-'
}

pub open spec fn username_len_ok(s: Seq<char>) -> bool {
    USERNAME_MIN <= trim_spec(s).len() <= USERNAME_MAX
}

pub open spec fn username_chars_ok(s: Seq<char>) -> bool {
    forall|k: int| 0 <= k < trim_spec(s).len() ==> is_username_char(trim_spec(s)[k])
}

pub open spec fn username_ok(s: Seq<char>) -> bool {
    username_len_ok(s) && username_chars_ok(s)
}

/// Accepts a username of 3 to 32 characters after trimming, made of letters,
/// digits, underscore, dot and hyphen.  The length is checked first, as its
/// error takes precedence.
pub fn validate_username(input: &str) -> (r: Result<String, AppError>)
    ensures
        username_ok(input@) ==> (r matches Ok(v) && v@ == trim_spec(input@)),
        !username_len_ok(input@) ==> (r matches Err(e) && is_single_validation(
            e,
            "username"@,
            "Username must be between 3 and 32 characters"@,
        )),
        username_len_ok(input@) && !username_chars_ok(input@) ==> (r matches Err(e)
            && is_single_validation(e, "username"@, "Username contains invalid characters"@)),
{
    let v = trim(input);
    let len: usize = v.as_str().unicode_len();
    if len < USERNAME_MIN || len > USERNAME_MAX {
        return Err(single_validation("username", "Username must be between 3 and 32 characters"));
    }
    let mut i: usize = 0;
    while i < len
        invariant
            0 <= i <= len,
            len == v@.len(),
            v@ == trim_spec(input@),
            username_len_ok(input@),
            forall|k: int| 0 <= k < i ==> is_username_char(v@[k]),
        decreases len - i,
    {
        if !is_username_char_exec(v.as_str().get_char(i)) {
            return Err(single_validation("username", "Username contains invalid characters"));
        }
        i = i + 1;
    }
    Ok(v)
}

pub open spec fn display_name_ok(s: Seq<char>) -> bool {
    trim_spec(s).len() <= DISPLAY_NAME_MAX
}

/// Accepts an absent display name, or one of at most 64 characters after
/// trimming.
pub fn validate_display_name(input: &Option<String>) -> (r: Result<Option<String>, AppError>)
    ensures
        input is None ==> (r matches Ok(o) && o is None),
        input is Some && display_name_ok(input->0@) ==> (r matches Ok(o) && o matches Some(v)
            && v@ == trim_spec(input->0@)),
        input is Some && !display_name_ok(input->0@) ==> (r matches Err(e) && is_single_validation(
            e,
            "display_name"@,
            "Display name must be at most 64 characters"@,
        )),
{
    match input {
        Some(s) => {
            let v = trim(s.as_str());
            let len: usize = v.as_str().unicode_len();
            if len > DISPLAY_NAME_MAX {
                Err(single_validation("display_name", "Display name must be at most 64 characters"))
            } else {
                Ok(Some(v))
            }
        },
        None => Ok(None),
    }
}

/// Lowercase letters, digits and hyphens.
pub open spec fn is_slug_char(c: char) -> bool {
    ||| 97 <= (c as u32) <= 122
    ||| 48 <= (c as u32) <= 57
    ||| c == '-'
}

fn is_slug_char_exec(c: char) -> (r: bool)
    ensures
        r == is_slug_char(c),
{
    let u = c as u32;
    (97 <= u && u <= 122) || (48 <= u && u <= 57) || c == '-'
}

pub open spec fn slug_ok(s: Seq<char>) -> bool {
    &&& SLUG_MIN <= trim_spec(s).len() <= SLUG_MAX
    &&& forall|k: int| 0 <= k < trim_spec(s).len() ==> is_slug_char(trim_spec(s)[k])
}

/// Accepts a slug of 3 to 50 characters after trimming, made of lowercase
/// letters, digits and hyphens.
pub fn validate_public_slug(input: &str) -> (r: Result<String, AppError>)
    ensures
        slug_ok(input@) ==> (r matches Ok(v) && v@ == trim_spec(input@)),
        !slug_ok(input@) ==> (r matches Err(e) && is_single_validation(
            e,
            "public_slug"@,
            "Slug must be 3-50 characters, lowercase letters, numbers, and hyphens only"@,
        )),
{
    let v = trim(input);
    let len: usize = v.as_str().unicode_len();
    if len < SLUG_MIN || len > SLUG_MAX {
        return Err(
            single_validation(
                "public_slug",
                "Slug must be 3-50 characters, lowercase letters, numbers, and hyphens only",
            ),
        );
    }
    let mut i: usize = 0;
    while i < len
        invariant
            0 <= i <= len,
            len == v@.len(),
            v@ == trim_spec(input@),
            forall|k: int| 0 <= k < i ==> is_slug_char(v@[k]),
        decreases len - i,
    {
        if !is_slug_char_exec(v.as_str().get_char(i)) {
            return Err(
                single_validation(
                    "public_slug",
                    "Slug must be 3-50 characters, lowercase letters, numbers, and hyphens only",
                ),
            );
        }
        i = i + 1;
    }
    Ok(v)
}

pub open spec fn api_key_name_ok(s: Seq<char>) -> bool {
    trim_spec(s).len() <= API_KEY_NAME_MAX
}

/// Accepts an absent key name, or one of at most 100 characters after
/// trimming.
pub fn validate_api_key_name(input: &Option<String>) -> (r: Result<Option<String>, AppError>)
    ensures
        input is None ==> (r matches Ok(o) && o is None),
        input is Some && api_key_name_ok(input->0@) ==> (r matches Ok(o) && o matches Some(v)
            && v@ == trim_spec(input->0@)),
        input is Some && !api_key_name_ok(input->0@) ==> (r matches Err(e) && is_single_validation(
            e,
            "name"@,
            "API key name must be at most 100 characters"@,
        )),
{
    match input {
        Some(s) => {
            let v = trim(s.as_str());
            let len: usize = v.as_str().unicode_len();
            if len > API_KEY_NAME_MAX {
                Err(single_validation("name", "API key name must be at most 100 characters"))
            } else {
                Ok(Some(v))
            }
        },
        None => Ok(None),
    }
}

/// Lowercase letters only.
pub open spec fn is_scope_char(c: char) -> bool {
    97 <= (c as u32) <= 122
}

fn is_scope_char_exec(c: char) -> (r: bool)
    ensures
        r == is_scope_char(c),
{
    let u = c as u32;
    97 <= u && u <= 122
}

/// A scope is valid when, after trimming, it is a non-empty run of lowercase
/// letters.
pub open spec fn scope_ok(s: Seq<char>) -> bool {
    &&& trim_spec(s).len() >= 1
    &&& forall|k: int| 0 <= k < trim_spec(s).len() ==> is_scope_char(trim_spec(s)[k])
}

pub open spec fn scopes_valid(vs: Seq<Seq<char>>) -> bool {
    &&& vs.len() > 0
    &&& forall|i: int| 0 <= i < vs.len() ==> scope_ok(vs[i])
}

/// Index of the first invalid scope, when one exists.
pub open spec fn first_bad_scope(vs: Seq<Seq<char>>) -> int
    decreases vs.len(),
{
    if vs.len() == 0 {
        0
    } else if !scope_ok(vs[0]) {
        0
    } else {
        1 + first_bad_scope(vs.drop_first())
    }
}

proof fn lemma_first_bad_scope(vs: Seq<Seq<char>>, i: int)
    requires
        0 <= i <= vs.len(),
        forall|k: int| 0 <= k < i ==> scope_ok(vs[k]),
        i < vs.len() ==> !scope_ok(vs[i]),
    ensures
        first_bad_scope(vs) == if i < vs.len() {
            i
        } else {
            vs.len() as int
        },
    decreases i,
{
    if i == 0 {
        if vs.len() > 0 && scope_ok(vs[0]) {
            lemma_first_bad_scope(vs.drop_first(), 0);
        }
    } else {
        assert(scope_ok(vs[0]));
        lemma_first_bad_scope(vs.drop_first(), i - 1);
    }
}

/// Accepts a non-empty list of scopes, each a non-empty run of lowercase
/// letters after trimming; returns the trimmed scopes.  An empty list, or the
/// first invalid scope, is reported as a validation error on `scopes`.
pub fn validate_scopes(scopes: &Vec<String>) -> (r: Result<Vec<String>, AppError>)
    ensures
        scopes@.len() > 0 && (forall|i: int| 0 <= i < scopes@.len() ==> scope_ok(scopes@[i]@)) ==> (
        r matches Ok(out) && out@.len() == scopes@.len() && forall|i: int|
            0 <= i < out@.len() ==> out@[i]@ == trim_spec(scopes@[i]@)),
        scopes@.len() == 0 ==> (r matches Err(e) && is_single_validation(
            e,
            "scopes"@,
            "At least one scope must be provided"@,
        )),
        scopes@.len() > 0 && !(forall|i: int| 0 <= i < scopes@.len() ==> scope_ok(scopes@[i]@))
            ==> (r matches Err(e) && {
            let b = first_bad_scope(scopes@.map_values(|s: String| s@));
            is_single_validation(e, "scopes"@, "Invalid scope: "@ + scopes@[b]@)
        }),
{
    if scopes.len() == 0 {
        return Err(single_validation("scopes", "At least one scope must be provided"));
    }
    let ghost views = scopes@.map_values(|s: String| s@);
    let mut out: Vec<String> = Vec::new();
    let mut i: usize = 0;
    while i < scopes.len()
        invariant
            0 <= i <= scopes@.len(),
            views == scopes@.map_values(|s: String| s@),
            out@.len() == i,
            forall|k: int| 0 <= k < i ==> scope_ok(scopes@[k]@),
            forall|k: int| 0 <= k < i ==> out@[k]@ == trim_spec(scopes@[k]@),
        decreases scopes@.len() - i,
    {
        let s = &scopes[i];
        let v = trim(s.as_str());
        let len: usize = v.as_str().unicode_len();
        let mut ok: bool = len >= 1;
        let mut j: usize = 0;
        while j < len
            invariant
                0 <= j <= len,
                len == v@.len(),
                ok == (len >= 1 && forall|k: int| 0 <= k < j ==> is_scope_char(v@[k])),
            decreases len - j,
        {
            if !is_scope_char_exec(v.as_str().get_char(j)) {
                ok = false;
            }
            j = j + 1;
        }
        if !ok {
            proof {
                lemma_first_bad_scope(views, i as int);
            }
            let mut msg = "Invalid scope: ".to_owned();
            msg.append(s.as_str());
            let mut ev: Vec<FieldError> = Vec::new();
            ev.push(FieldError { field: "scopes".to_owned(), message: msg });
            return Err(AppError::Validation(ev));
        }
        out.push(v);
        i = i + 1;
    }
    Ok(out)
}

} // verus!
