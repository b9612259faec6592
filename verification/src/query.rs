//! What the read side of the package table asks for: a window of rows, a
//! test on the flags of a row, a build task, a build log.
//!
//! The flags of a row are a bit field that the build pipeline fills: bit 15
//! is set where the last build failed, and the bits from 16 on hold the
//! class of the failure.

use vstd::prelude::*;

verus! {

/// The rows of one page of a listing.
#[derive(Clone, Copy, Debug, PartialEq, Eq, Structural)]
pub struct Window {
    /// The greatest number of rows on the page.
    pub limit: i64,
    /// The number of rows before the page.
    pub offset: i64,
}

/// The page that is shown where none is asked for.
pub const DEFAULT_PAGE: u32 = 1;

/// The number of rows on a page where none is asked for.
pub const DEFAULT_PER_PAGE: u32 = 100;

/// The window of page `page`, pages counted from one, with `per_page` rows
/// on each. There is no page zero, and no page that more rows come before
/// than the store can count.
pub open spec fn window_of(page: Option<u32>, per_page: Option<u32>) -> Option<Window> {
    let page = match page {
        Some(p) => p,
        None => DEFAULT_PAGE,
    };
    let per_page = match per_page {
        Some(n) => n,
        None => DEFAULT_PER_PAGE,
    };
    if page == 0 || (page - 1) * per_page > i64::MAX {
        None
    } else {
        Some(Window { limit: per_page as i64, offset: ((page - 1) * per_page) as i64 })
    }
}

/// The window of a page.
pub fn window(page: Option<u32>, per_page: Option<u32>) -> (r: Option<Window>)
    ensures
        r == window_of(page, per_page),
{
    let page: u32 = match page {
        Some(p) => p,
        None => DEFAULT_PAGE,
    };
    let per_page: u32 = match per_page {
        Some(n) => n,
        None => DEFAULT_PER_PAGE,
    };
    if page == 0 {
        None
    } else {
        let before: i64 = (page - 1) as i64;
        let each: i64 = per_page as i64;
        assert(0 <= before * each) by (nonlinear_arith)
            requires
                0 <= before,
                0 <= each,
        ;
        match before.checked_mul(each) {
            Some(offset) => Some(Window { limit: each, offset }),
            None => None,
        }
    }
}

/// A test on the flags of a row.
#[derive(Clone, Copy, Debug, PartialEq, Eq, Structural)]
pub enum ErrorFilter {
    /// Every row passes.
    Any,
    /// The rows whose last build failed pass.
    Failed,
    /// The rows whose failure is of that class pass.
    Class(i64),
}

/// The test that a listing asks for: none for no number and for zero, the
/// failed builds for one, and for a greater number the class one below it.
pub open spec fn filter_of(error_type: Option<u32>) -> ErrorFilter {
    match error_type {
        None => ErrorFilter::Any,
        Some(t) => if t == 0 {
            ErrorFilter::Any
        } else if t == 1 {
            ErrorFilter::Failed
        } else {
            ErrorFilter::Class((t - 1) as i64)
        },
    }
}

/// The test that a listing asks for.
pub fn error_filter(error_type: Option<u32>) -> (r: ErrorFilter)
    ensures
        r == filter_of(error_type),
{
    match error_type {
        None => ErrorFilter::Any,
        Some(t) => if t == 0 {
            ErrorFilter::Any
        } else if t == 1 {
            ErrorFilter::Failed
        } else {
            ErrorFilter::Class((t - 1) as i64)
        },
    }
}

impl ErrorFilter {
    /// The flags pass the test. A row without flags passes only the test
    /// that every row passes.
    pub open spec fn passes(self, flags: Option<i32>) -> bool {
        match self {
            ErrorFilter::Any => true,
            ErrorFilter::Failed => flags is Some && flags->0 & 0x8000 != 0,
            ErrorFilter::Class(class) => flags is Some && (flags->0 >> 16) == class,
        }
    }

    /// The test as a condition on the `flags` column, to follow other
    /// conditions. The condition of a class ends where the class is to be
    /// bound.
    pub open spec fn condition_text(self) -> Seq<char> {
        match self {
            ErrorFilter::Any => ""@,
            ErrorFilter::Failed => " AND flags & (1 << 15) != 0"@,
            ErrorFilter::Class(_) => " AND flags >> 16 = "@,
        }
    }

    /// The test as a condition on the `flags` column.
    pub fn condition(self) -> (r: &'static str)
        ensures
            r@ == self.condition_text(),
    {
        match self {
            ErrorFilter::Any => "",
            ErrorFilter::Failed => " AND flags & (1 << 15) != 0",
            ErrorFilter::Class(_) => " AND flags >> 16 = ",
        }
    }

    /// The class that is to be bound after the condition, if the test is on
    /// a class.
    pub fn class(self) -> (r: Option<i64>)
        ensures
            r == match self {
                ErrorFilter::Class(class) => Some(class),
                _ => None::<i64>,
            },
    {
        match self {
            ErrorFilter::Class(class) => Some(class),
            _ => None,
        }
    }

    /// Tells whether the flags of a row pass the test.
    pub fn accepts(self, flags: Option<i32>) -> (r: bool)
        ensures
            r == self.passes(flags),
    {
        match self {
            ErrorFilter::Any => true,
            ErrorFilter::Failed => match flags {
                Some(f) => f & 0x8000 != 0,
                None => false,
            },
            ErrorFilter::Class(class) => match flags {
                Some(f) => {
                    let high: i32 = f >> 16;
                    high as i64 == class
                },
                None => false,
            },
        }
    }
}

/// The build task that is meant: the task of that number where the number
/// is above zero, and else the task that many before the latest. There is
/// none where that falls below every task number.
pub open spec fn task_of(requested: Option<i32>, latest: i32) -> Option<i32> {
    let asked = match requested {
        Some(t) => t,
        None => 0,
    };
    if asked > 0 {
        Some(asked)
    } else if latest + asked >= i32::MIN {
        Some((latest + asked) as i32)
    } else {
        None
    }
}

/// The build task that is meant.
pub fn resolve_task(requested: Option<i32>, latest: i32) -> (r: Option<i32>)
    ensures
        r == task_of(requested, latest),
{
    let asked: i32 = match requested {
        Some(t) => t,
        None => 0,
    };
    if asked > 0 {
        Some(asked)
    } else {
        latest.checked_add(asked)
    }
}

/// The pattern that finds the names that hold `part`.
pub fn name_pattern(part: &str) -> (r: String)
    ensures
        r@ == "%"@ + part@ + "%"@,
{
    let mut r = String::from_str("%");
    r.append(part);
    r.append("%");
    r
}

/// The file that holds a build log.
pub fn log_path(base: &str, log_name: &str) -> (r: String)
    ensures
        r@ == "/home/arch/loong-status/build_logs/"@ + base@ + "/"@ + log_name@ + ".log"@,
{
    let mut r = String::from_str("/home/arch/loong-status/build_logs/");
    r.append(base);
    r.append("/");
    r.append(log_name);
    r.append(".log");
    r
}

} // verus!
