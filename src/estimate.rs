use vstd::prelude::*;
use crate::model::{AppError, STATUS_TOO_MANY_REQUESTS};
use crate::probe::{Step, MAX_RETRIES, text_contains, contains_text, retry_or_give_up, give_up_or_retry};

verus! {

/// Header text of the table row that holds the quantity.
pub const QUANTITY_LABEL: &'static str = "Quantity";

/// Longest page, in characters, handed to the HTML parser: its UTF-8 form
/// then stays within the parser's buffer limit of `u32::MAX` bytes.
pub const MAX_PAGE_CHARS: usize = 0x3FFF_FFFF;

/// One row of an HTML table: the text of its first header cell and of its
/// first data cell, where it has them.
pub type TableRow = (Option<String>, Option<String>);

/// The rows of every table of an HTML document, in the order in which the
/// parsed document yields its `tr` elements.
pub uninterp spec fn table_rows_of(html: Seq<char>) -> Seq<(Option<Seq<char>>, Option<Seq<char>>)>;

/// Relies on scraper: `Html::parse_document` parses the page, and the `tr`,
/// `th`, `td` selectors give, for each `tr` element that the selection yields, the
/// collected text of its first `th` and of its first `td` descendant.
#[verifier::external_body]
fn table_rows(html: &str) -> (r: Vec<TableRow>)
    requires
        html@.len() <= MAX_PAGE_CHARS,
    ensures
        r.deep_view() == table_rows_of(html@),
{
    let doc = scraper::Html::parse_document(html);
    let tr = scraper::Selector::parse("tr").unwrap();
    let th = scraper::Selector::parse("th").unwrap();
    let td = scraper::Selector::parse("td").unwrap();
    let mut rows = Vec::new();
    for row in doc.select(&tr) {
        let head: Option<String> = row.select(&th).next().map(|e| e.text().collect());
        let cell: Option<String> = row.select(&td).next().map(|e| e.text().collect());
        rows.push((head, cell));
    }
    rows
}

pub open spec fn is_digit(c: char) -> bool {
    '0' <= c && c <= '9'
}

pub open spec fn digit_pred() -> spec_fn(char) -> bool {
    |c: char| is_digit(c)
}

/// Position of the first `/` in `s`, or its length where there is none.
pub open spec fn first_slash(s: Seq<char>) -> int
    decreases s.len(),
{
    if s.len() == 0 {
        0
    } else if s[0] == '/' {
        0
    } else {
        1 + first_slash(s.drop_first())
    }
}

/// Value of a string of decimal digits (0 when empty).
pub open spec fn digits_value(d: Seq<char>) -> nat
    decreases d.len(),
{
    if d.len() == 0 {
        0
    } else {
        digits_value(d.drop_last()) * 10 + (d.last() as nat - '0' as nat) as nat
    }
}

/// The number before the first `/` of a quantity cell such as `"1 234/5 000"`:
/// its decimal digits read as one number, other characters ignored. None where
/// there is no digit or the number does not fit in a `u32`.
pub open spec fn numerator_value(cell: Seq<char>) -> Option<u32> {
    let d = cell.subrange(0, first_slash(cell)).filter(digit_pred());
    if d.len() == 0 || digits_value(d) > u32::MAX {
        None
    } else {
        Some(digits_value(d) as u32)
    }
}

/// The quantity that a row gives: its header mentions the label and its cell
/// holds a number.
pub open spec fn row_quantity(row: (Option<Seq<char>>, Option<Seq<char>>)) -> Option<u32> {
    match row {
        (Some(h), Some(c)) => if text_contains(h, QUANTITY_LABEL@) {
            numerator_value(c)
        } else {
            None
        },
        _ => None,
    }
}

/// The quantity of the first row that gives one.
pub open spec fn quantity_spec(rows: Seq<(Option<Seq<char>>, Option<Seq<char>>)>) -> Option<u32>
    decreases rows.len(),
{
    if rows.len() == 0 {
        None
    } else {
        match row_quantity(rows[0]) {
            Some(n) => Some(n),
            None => quantity_spec(rows.drop_first()),
        }
    }
}

proof fn lemma_first_slash(s: Seq<char>, k: int)
    requires
        0 <= k <= s.len(),
        forall|j: int| 0 <= j < k ==> s[j] != '/',
        k == s.len() || s[k] == '/',
    ensures
        first_slash(s) == k,
    decreases k,
{
    if k > 0 {
        lemma_first_slash(s.drop_first(), k - 1);
    }
}

proof fn lemma_digits_grow(d: Seq<char>, c: char)
    requires
        is_digit(c),
    ensures
        digits_value(d.push(c)) >= digits_value(d),
        digits_value(d.push(c)) == digits_value(d) * 10 + (c as nat - '0' as nat),
{
    assert(d.push(c).drop_last() =~= d);
}

/// Reads the number before the first `/` of a quantity cell.
pub fn parse_numerator(cell: &str) -> (r: Option<u32>)
    ensures
        r == numerator_value(cell@),
{
    let n = cell.unicode_len();
    let mut k: usize = 0;
    while k < n && cell.get_char(k) != '/'
        invariant
            n == cell@.len(),
            k <= n,
            forall|j: int| 0 <= j < k ==> cell@[j] != '/',
        decreases n - k,
    {
        k = k + 1;
    }
    proof {
        lemma_first_slash(cell@, k as int);
    }
    let ghost s = cell@.subrange(0, k as int);
    let mut acc: u64 = 0;
    let mut count: usize = 0;
    let mut too_big = false;
    let mut i: usize = 0;
    while i < k
        invariant
            n == cell@.len(),
            k <= n,
            s == cell@.subrange(0, k as int),
            i <= k,
            count == s.subrange(0, i as int).filter(digit_pred()).len(),
            too_big ==> digits_value(s.subrange(0, i as int).filter(digit_pred())) > u32::MAX,
            !too_big ==> acc == digits_value(s.subrange(0, i as int).filter(digit_pred())),
            !too_big ==> acc <= u32::MAX,
        decreases k - i,
    {
        let c = cell.get_char(i);
        let ghost before = s.subrange(0, i as int).filter(digit_pred());
        assert(s.subrange(0, i as int + 1).drop_last() =~= s.subrange(0, i as int));
        assert(s.subrange(0, i as int + 1).last() == c);
        proof {
            reveal(Seq::filter);
        }
        if '0' <= c && c <= '9' {
            assert(s.subrange(0, i as int + 1).filter(digit_pred()) == before.push(c));
            proof {
                lemma_digits_grow(before, c);
            }
            count = count + 1;
            if !too_big {
                let d = (c as u32 - '0' as u32) as u64;
                acc = acc * 10 + d;
                if acc > u32::MAX as u64 {
                    too_big = true;
                }
            }
        } else {
            assert(s.subrange(0, i as int + 1).filter(digit_pred()) == before);
        }
        i = i + 1;
    }
    assert(s.subrange(0, k as int) =~= s);
    if count == 0 || too_big {
        None
    } else {
        Some(acc as u32)
    }
}

/// The quantity that one table row gives, if any.
pub fn quantity_of_row(row: &TableRow) -> (r: Option<u32>)
    ensures
        r == row_quantity(row.deep_view()),
{
    match row {
        (Some(h), Some(c)) => {
            if contains_text(h.as_str(), QUANTITY_LABEL) {
                parse_numerator(c.as_str())
            } else {
                None
            }
        },
        _ => None,
    }
}

proof fn lemma_quantity_skip(rows: Seq<(Option<Seq<char>>, Option<Seq<char>>)>, i: int)
    requires
        0 <= i <= rows.len(),
        forall|j: int| 0 <= j < i ==> row_quantity(#[trigger] rows[j]) is None,
    ensures
        quantity_spec(rows) == quantity_spec(rows.subrange(i, rows.len() as int)),
    decreases i,
{
    if i == 0 {
        assert(rows.subrange(0, rows.len() as int) =~= rows);
    } else {
        let t = rows.drop_first();
        assert forall|j: int| 0 <= j < i - 1 implies row_quantity(#[trigger] t[j]) is None by {
            assert(t[j] == rows[j + 1]);
        };
        lemma_quantity_skip(t, i - 1);
        assert(t.subrange(i - 1, t.len() as int) =~= rows.subrange(i, rows.len() as int));
        assert(row_quantity(rows[0]) is None);
    }
}

/// The quantity given by the first table row whose header mentions
/// `Quantity` and whose cell holds a number.
pub fn quantity_from_rows(rows: &Vec<TableRow>) -> (r: Option<u32>)
    ensures
        r == quantity_spec(rows.deep_view()),
{
    let ghost v = rows.deep_view();
    let mut i: usize = 0;
    while i < rows.len()
        invariant
            i <= rows.len(),
            v == rows.deep_view(),
            v.len() == rows.len(),
            forall|j: int| 0 <= j < i ==> row_quantity(#[trigger] v[j]) is None,
        decreases rows.len() - i,
    {
        let q = quantity_of_row(&rows[i]);
        if q.is_some() {
            proof {
                lemma_quantity_skip(v, i as int);
                assert(v.subrange(i as int, v.len() as int)[0] == v[i as int]);
            }
            return q;
        }
        i = i + 1;
    }
    proof {
        lemma_quantity_skip(v, i as int);
    }
    None
}

/// The count that a page states: none for a page too long to parse.
pub open spec fn page_count_of(html: Seq<char>) -> Option<u32> {
    if html.len() <= MAX_PAGE_CHARS {
        quantity_spec(table_rows_of(html))
    } else {
        None
    }
}

/// The item count that a summary page states, if it states one; a page
/// longer than `MAX_PAGE_CHARS` characters is treated as stating none.
pub fn parse_gift_count(html: &str) -> (r: Option<u32>)
    ensures
        r == page_count_of(html@),
{
    if html.unicode_len() > MAX_PAGE_CHARS {
        return None;
    }
    let rows = table_rows(html);
    quantity_from_rows(&rows)
}

/// What came back from one request for the summary page.
pub enum CountReply {
    /// A response with a client-error status (4xx).
    Refused(u16),
    /// A successful response and its body.
    Page(String),
    /// A response whose body could not be read, with the description.
    BodyError(String),
    /// The request failed below HTTP, with its description.
    Transport(String),
}

/// A status in the client-error class.
pub fn is_client_error(status: u16) -> (r: bool)
    ensures
        r == (400 <= status && status < 500),
{
    400 <= status && status < 500
}

/// Decision after attempt `attempt` of the count estimate, where a page's
/// count is `parsed`: a rate limit ends the estimate at once; any other
/// client error, a page without a count, an unreadable body or a transport
/// failure is retried after the pause, and the last attempt then gives up
/// with `MaxRetriesExceeded`.
pub open spec fn count_step_spec(attempt: u32, reply: CountReply, parsed: Option<u32>) -> Step<u32> {
    match reply {
        CountReply::Refused(status) => if status == STATUS_TOO_MANY_REQUESTS {
            Step::Fail(AppError::RateLimit)
        } else {
            retry_or_give_up(attempt)
        },
        CountReply::Page(_) => match parsed {
            Some(n) => Step::Done(n),
            None => retry_or_give_up(attempt),
        },
        CountReply::BodyError(_) => retry_or_give_up(attempt),
        CountReply::Transport(_) => retry_or_give_up(attempt),
    }
}

/// The count that a reply's page states, where the reply is a page.
pub open spec fn page_count(reply: CountReply) -> Option<u32> {
    match reply {
        CountReply::Page(html) => page_count_of(html@),
        _ => None,
    }
}

/// Decides what follows attempt `attempt` (counted from 1) of the count
/// estimate, given the count already read from the reply's page.
pub fn count_decision(attempt: u32, reply: &CountReply, parsed: Option<u32>) -> (r: Step<u32>)
    requires
        1 <= attempt <= MAX_RETRIES,
    ensures
        r == count_step_spec(attempt, *reply, parsed),
{
    match reply {
        CountReply::Refused(status) => {
            if *status == STATUS_TOO_MANY_REQUESTS {
                Step::Fail(AppError::RateLimit)
            } else {
                give_up_or_retry(attempt)
            }
        },
        CountReply::Page(_) => match parsed {
            Some(n) => Step::Done(n),
            None => give_up_or_retry(attempt),
        },
        CountReply::BodyError(_) => give_up_or_retry(attempt),
        CountReply::Transport(_) => give_up_or_retry(attempt),
    }
}

/// Decides what follows attempt `attempt` (counted from 1) of the count
/// estimate, reading the count from the page where the reply is one.
pub fn count_step(attempt: u32, reply: &CountReply) -> (r: Step<u32>)
    requires
        1 <= attempt <= MAX_RETRIES,
    ensures
        r == count_step_spec(attempt, *reply, page_count(*reply)),
{
    let parsed = match reply {
        CountReply::Page(html) => parse_gift_count(html.as_str()),
        _ => None,
    };
    count_decision(attempt, reply, parsed)
}

} // verus!
