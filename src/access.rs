//! Ownership of stored entities.
use crate::cache::{has_prefix, starts_with};
use crate::error::{is_validation_error, AppError};
use vstd::prelude::*;

verus! {

/// The answer to a request for an entity of `caller`: `found` is the owner of
/// the entity, or `None` where no such entity exists. A missing entity is
/// `NotFound`, one of another user `Forbidden`; the two stay distinct.
pub fn check_owner(found: Option<u128>, caller: u128, not_found: &str) -> (r: Result<(), AppError>)
    ensures
        found is None ==> (r matches Err(AppError::NotFound(m)) && m@ == not_found@),
        (found matches Some(o) && o != caller) ==> (r matches Err(AppError::Forbidden(m)) && m@
            == "Access denied"@),
        found == Some(caller) ==> r is Ok,
{
    match found {
        None => Err(AppError::NotFound(String::from_str(not_found))),
        Some(o) => if o != caller {
            Err(AppError::Forbidden(String::from_str("Access denied")))
        } else {
            Ok(())
        },
    }
}

/// Page 1 and 20 items where a list query gives none.
pub open spec fn page_or_default(page: Option<i64>) -> i64 {
    match page {
        Some(p) => p,
        None => 1,
    }
}

pub open spec fn limit_or_default(limit: Option<i64>) -> i64 {
    match limit {
        Some(l) => l,
        None => 20,
    }
}

/// Checks the paging of a list query: a page, where given, is at least 1; a
/// limit, where given, lies in `[1, 100]`.
pub fn validate_paging(page: Option<i64>, limit: Option<i64>) -> (r: Result<(), AppError>)
    ensures
        (page matches Some(p) && p < 1) ==> r is Err && is_validation_error(
            r->Err_0,
            "Page must be greater than 0"@,
        ),
        (!(page matches Some(p) && p < 1) && (limit matches Some(l) && (l < 1 || l > 100))) ==> (r
            is Err && is_validation_error(r->Err_0, "Limit must be between 1 and 100"@)),
        r is Ok <==> (!(page matches Some(p) && p < 1) && !(limit matches Some(l) && (l < 1 || l
            > 100))),
{
    if let Some(p) = page {
        if p < 1 {
            return Err(crate::error::validation_error("Page must be greater than 0"));
        }
    }
    if let Some(l) = limit {
        if l < 1 || l > 100 {
            return Err(crate::error::validation_error("Limit must be between 1 and 100"));
        }
    }
    Ok(())
}

/// The token of an `Authorization` header: what follows `Bearer `. A missing
/// header, or one in another form, is `Unauthorized`.
pub fn bearer_token(header: Option<&str>) -> (r: Result<String, AppError>)
    ensures
        header is None ==> (r matches Err(AppError::Unauthorized(m)) && m@
            == "Missing authorization header"@),
        (header matches Some(h) && !starts_with(h@, "Bearer "@)) ==> (r matches Err(
            AppError::Unauthorized(m),
        ) && m@ == "Invalid authorization header format"@),
        (header is Some && starts_with(header->Some_0@, "Bearer "@)) ==> (r matches Ok(t) && t@
            == header->Some_0@.skip(7)),
{
    match header {
        None => Err(AppError::Unauthorized(String::from_str("Missing authorization header"))),
        Some(h) => {
            if !has_prefix(h, "Bearer ") {
                return Err(AppError::Unauthorized(String::from_str("Invalid authorization header format")));
            }
            proof {
                reveal_strlit("Bearer ");
            }
            let n = h.unicode_len();
            let token = h.substring_char(7, n);
            Ok(String::from_str(token))
        },
    }
}

/// The outcome of a sign-in: an unknown email and a wrong password are the
/// same `Unauthorized`; a check of the password that itself failed (with
/// `detail`) is an internal error.
pub fn check_credentials(found: bool, verified: Result<bool, String>) -> (r: Result<(), AppError>)
    ensures
        !found ==> (r matches Err(AppError::Unauthorized(m)) && m@ == "Invalid credentials"@),
        (found && verified == Ok::<bool, String>(false)) ==> (r matches Err(AppError::Unauthorized(m))
            && m@ == "Invalid credentials"@),
        (found && verified is Err) ==> (r matches Err(AppError::InternalServerError(m)) && m@
            == "Password verification failed: "@ + verified->Err_0@),
        r is Ok <==> (found && verified == Ok::<bool, String>(true)),
{
    if !found {
        return Err(AppError::Unauthorized(String::from_str("Invalid credentials")));
    }
    match verified {
        Ok(true) => Ok(()),
        Ok(false) => Err(AppError::Unauthorized(String::from_str("Invalid credentials"))),
        Err(detail) => Err(
            AppError::InternalServerError(
                String::from_str("Password verification failed: ").concat(detail.as_str()),
            ),
        ),
    }
}

/// `sub` occurs in `s`.
pub open spec fn occurs_in(sub: Seq<char>, s: Seq<char>) -> bool {
    exists|i: int| 0 <= i && i + sub.len() <= s.len() && #[trigger] s.subrange(i, i + sub.len()) == sub
}

/// Whether `sub` occurs in `s`.
pub fn contains_text(s: &str, sub: &str) -> (r: bool)
    ensures
        r == occurs_in(sub@, s@),
{
    let n = s.unicode_len();
    let m = sub.unicode_len();
    if m > n {
        assert forall|i: int| 0 <= i && i + sub@.len() <= s@.len() implies #[trigger] s@.subrange(
            i,
            i + sub@.len(),
        ) != sub@ by {}
        return false;
    }
    let mut i: usize = 0;
    while i <= n - m
        invariant
            m <= n,
            n == s@.len(),
            m == sub@.len(),
            i <= n - m + 1,
            forall|k: int| 0 <= k < i ==> #[trigger] s@.subrange(k, k + m) != sub@,
        decreases n - m + 1 - i,
    {
        let mut j: usize = 0;
        let mut same = true;
        while j < m
            invariant
                m <= n,
                n == s@.len(),
                m == sub@.len(),
                i <= n - m,
                j <= m,
                same == (forall|q: int| 0 <= q < j ==> s@[i + q] == sub@[q]),
            decreases m - j,
        {
            if s.get_char(i + j) != sub.get_char(j) {
                same = false;
            }
            j = j + 1;
        }
        if same {
            assert(s@.subrange(i as int, i + m) =~= sub@);
            return true;
        }
        let ghost k = choose|q: int| 0 <= q < m && s@[i + q] != sub@[q];
        assert(s@.subrange(i as int, i + m)[k] != sub@[k]);
        i = i + 1;
    }
    proof {
        assert forall|k: int| 0 <= k && k + sub@.len() <= s@.len() implies #[trigger] s@.subrange(
            k,
            k + sub@.len(),
        ) != sub@ by {
            assert(k < i);
        }
    }
    false
}

/// The error of a failed insert of a user: a second account for an email
/// already taken is a `Conflict`; any other failure of the store a
/// `DatabaseError` with its detail.
pub fn user_insert_error(detail: &String) -> (r: AppError)
    ensures
        occurs_in("duplicate key"@, detail@) ==> (r matches AppError::Conflict(m) && m@
            == "Email already exists"@),
        !occurs_in("duplicate key"@, detail@) ==> (r matches AppError::DatabaseError(m) && m@
            == detail@),
{
    if contains_text(detail.as_str(), "duplicate key") {
        AppError::Conflict(String::from_str("Email already exists"))
    } else {
        AppError::DatabaseError(detail.clone())
    }
}

} // verus!
