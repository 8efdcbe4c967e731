//! Filling the copyright year and holder into a license template.
use chrono::Datelike;
use vstd::prelude::*;
use crate::text::{
    absent, decimal_of, decimal_text, digits_of, lemma_absent_after_free, lemma_absent_concat,
    lemma_no_straddle, lemma_occurs_concat, lemma_occurs_index, lemma_replaced_absent,
    lemma_replaced_front, lemma_replaced_prefix, occurs_at, replace_all, replaced,
};

verus! {

broadcast use vstd::string::group_string_axioms;

/// The placeholder that stands for the year.
pub open spec fn year_token() -> Seq<char> {
    seq!['<', 'Y', 'E', 'A', 'R', '>']
}

/// The placeholder that stands for the copyright holder.
pub open spec fn holder_token() -> Seq<char> {
    seq!['<', 'C', 'O', 'P', 'Y', 'R', 'I', 'G', 'H', 'T', '_', 'H', 'O', 'L', 'D', 'E', 'R', '>']
}

/// `template` with every year placeholder replaced by `year` in decimal, and
/// then every holder placeholder replaced by `holder`.
pub open spec fn rendered(template: Seq<char>, year: int, holder: Seq<char>) -> Seq<char> {
    replaced(replaced(template, year_token(), decimal_of(year)), holder_token(), holder)
}

/// A character that can appear in a number written in decimal.
pub open spec fn is_decimal_char(c: char) -> bool {
    c == '0' || c == '1' || c == '2' || c == '3' || c == '4' || c == '5' || c == '6' || c == '7'
        || c == '8' || c == '9' || c == '-'
}

proof fn lemma_digits_chars(n: nat)
    ensures
        digits_of(n).len() > 0,
        forall|k: int| 0 <= k < digits_of(n).len() ==> is_decimal_char(#[trigger] digits_of(n)[k]),
    decreases n,
{
    if n >= 10 {
        lemma_digits_chars(n / 10);
    }
}

proof fn lemma_decimal_chars(n: int)
    ensures
        decimal_of(n).len() > 0,
        forall|k: int| 0 <= k < decimal_of(n).len() ==> is_decimal_char(#[trigger] decimal_of(n)[k]),
{
    if n < 0 {
        lemma_digits_chars((-n) as nat);
        let d = digits_of((-n) as nat);
        assert forall|k: int| 0 <= k < decimal_of(n).len() implies is_decimal_char(
            #[trigger] decimal_of(n)[k],
        ) by {
            if k > 0 {
                assert(decimal_of(n)[k] == d[k - 1]);
            }
        }
    } else {
        lemma_digits_chars(n as nat);
    }
}

proof fn lemma_token_chars()
    ensures
        year_token()[0] == '<',
        year_token()[1] == 'Y',
        holder_token()[0] == '<',
        holder_token()[1] == 'C',
        forall|k: int| 1 <= k < year_token().len() ==> #[trigger] year_token()[k] != '<',
        forall|k: int| 1 <= k < holder_token().len() ==> #[trigger] holder_token()[k] != '<',
        forall|k: int| 0 <= k < holder_token().len() ==> !is_decimal_char(#[trigger] holder_token()[k]),
        forall|k: int| 0 <= k < year_token().len() ==> !is_decimal_char(#[trigger] year_token()[k]),
{
}

/// Neither placeholder holds the other: a text made of one placeholder and
/// then a text without the other holds none of it either.
proof fn lemma_token_then(q: Seq<char>, c: Seq<char>, p: Seq<char>)
    requires
        p.len() >= 2,
        q.len() >= 2,
        q[1] != p[1],
        forall|k: int| 1 <= k < q.len() ==> q[k] != p[0],
        absent(c, p),
    ensures
        absent(q + c, p),
{
    assert forall|i: int| !#[trigger] occurs_at(q + c, p, i) by {
        lemma_occurs_concat(q, c, p, i);
        if occurs_at(q + c, p, i) && i < q.len() {
            if i == 0 {
                lemma_occurs_index(q + c, p, i, 1);
            } else {
                lemma_occurs_index(q + c, p, i, 0);
            }
        }
    }
}

/// Rendering a text that holds no placeholder any more leaves it as it is: a
/// rendered text renders again to itself with the same year and holder.
pub proof fn lemma_render_idempotent(template: Seq<char>, year: int, holder: Seq<char>)
    requires
        absent(rendered(template, year, holder), year_token()),
        absent(rendered(template, year, holder), holder_token()),
    ensures
        rendered(rendered(template, year, holder), year, holder) == rendered(template, year, holder),
{
    let r = rendered(template, year, holder);
    lemma_replaced_absent(r, year_token(), decimal_of(year));
    lemma_replaced_absent(r, holder_token(), holder);
}

/// A template holding the year placeholder once and, after it, the holder
/// placeholder once renders to the same text with the year and the holder in
/// their places.
pub proof fn lemma_render_in_place(
    a: Seq<char>,
    b: Seq<char>,
    c: Seq<char>,
    year: int,
    holder: Seq<char>,
)
    requires
        absent(a, year_token()),
        absent(b, year_token()),
        absent(c, year_token()),
        absent(a, holder_token()),
        absent(b, holder_token()),
        absent(c, holder_token()),
    ensures
        rendered(a + year_token() + b + holder_token() + c, year, holder) == a + decimal_of(year)
            + b + holder + c,
{
    let y = year_token();
    let h = holder_token();
    let d = decimal_of(year);
    lemma_token_chars();
    lemma_decimal_chars(year);
    let bhc = b + (h + c);
    lemma_token_then(h, c, y);
    lemma_absent_concat(b, h + c, y);
    lemma_no_straddle(a, y + bhc, y);
    assert(a + y + b + h + c =~= a + (y + bhc));
    lemma_replaced_prefix(a, y + bhc, y, d);
    lemma_replaced_front(y, bhc, d);
    lemma_replaced_absent(bhc, y, d);
    let adb = a + (d + b);
    assert(a + (d + bhc) =~= adb + (h + c));
    lemma_absent_after_free(d, b, h);
    lemma_absent_concat(a, d + b, h);
    lemma_no_straddle(adb, h + c, h);
    lemma_replaced_prefix(adb, h + c, h, holder);
    lemma_replaced_front(h, c, holder);
    lemma_replaced_absent(c, h, holder);
    assert(adb + (holder + c) =~= a + d + b + holder + c);
}

/// A template holding the holder placeholder once and, after it, the year
/// placeholder once renders to the same text with the holder and the year in
/// their places.
pub proof fn lemma_render_in_place_holder_first(
    a: Seq<char>,
    b: Seq<char>,
    c: Seq<char>,
    year: int,
    holder: Seq<char>,
)
    requires
        absent(a, year_token()),
        absent(b, year_token()),
        absent(c, year_token()),
        absent(a, holder_token()),
        absent(b, holder_token()),
        absent(c, holder_token()),
    ensures
        rendered(a + holder_token() + b + year_token() + c, year, holder) == a + holder + b
            + decimal_of(year) + c,
{
    let y = year_token();
    let h = holder_token();
    let d = decimal_of(year);
    lemma_token_chars();
    lemma_decimal_chars(year);
    let ahb = a + (h + b);
    lemma_token_then(h, b, y);
    lemma_absent_concat(a, h + b, y);
    lemma_no_straddle(ahb, y + c, y);
    assert(a + h + b + y + c =~= ahb + (y + c));
    lemma_replaced_prefix(ahb, y + c, y, d);
    lemma_replaced_front(y, c, d);
    lemma_replaced_absent(c, y, d);
    let bdc = b + (d + c);
    assert(ahb + (d + c) =~= a + (h + bdc));
    lemma_absent_after_free(d, c, h);
    lemma_absent_concat(b, d + c, h);
    lemma_no_straddle(a, h + bdc, h);
    lemma_replaced_prefix(a, h + bdc, h, holder);
    lemma_replaced_front(h, bdc, holder);
    lemma_replaced_absent(bdc, h, holder);
    assert(a + (holder + bdc) =~= a + holder + b + d + c);
}

/// No placeholder is left in `prefix`, then a year in decimal, then `rest`,
/// when `prefix` and `rest` hold none.
proof fn lemma_no_placeholder_around_year(prefix: Seq<char>, year: int, rest: Seq<char>)
    requires
        absent(prefix, year_token()),
        absent(prefix, holder_token()),
        absent(rest, year_token()),
        absent(rest, holder_token()),
    ensures
        absent(prefix + decimal_of(year) + rest, year_token()),
        absent(prefix + decimal_of(year) + rest, holder_token()),
{
    let d = decimal_of(year);
    lemma_token_chars();
    lemma_decimal_chars(year);
    assert(prefix + d + rest =~= prefix + (d + rest));
    lemma_absent_after_free(d, rest, year_token());
    lemma_absent_after_free(d, rest, holder_token());
    lemma_absent_concat(prefix, d + rest, year_token());
    lemma_absent_concat(prefix, d + rest, holder_token());
}

/// A template holding the year placeholder once and, after it, the holder
/// placeholder once renders to a text without placeholders, unless the
/// holder, with what stands around it, spells one out.
pub proof fn lemma_render_leaves_no_placeholder(
    a: Seq<char>,
    b: Seq<char>,
    c: Seq<char>,
    year: int,
    holder: Seq<char>,
)
    requires
        absent(a, year_token()),
        absent(b, year_token()),
        absent(c, year_token()),
        absent(a, holder_token()),
        absent(b, holder_token()),
        absent(c, holder_token()),
        absent(b + holder + c, year_token()),
        absent(b + holder + c, holder_token()),
    ensures
        absent(rendered(a + year_token() + b + holder_token() + c, year, holder), year_token()),
        absent(rendered(a + year_token() + b + holder_token() + c, year, holder), holder_token()),
{
    lemma_render_in_place(a, b, c, year, holder);
    assert(a + decimal_of(year) + b + holder + c =~= a + decimal_of(year) + (b + holder + c));
    lemma_no_placeholder_around_year(a, year, b + holder + c);
}

/// A template holding the holder placeholder once and, after it, the year
/// placeholder once renders to a text without placeholders, unless the
/// holder, with what stands around it, spells one out.
pub proof fn lemma_render_leaves_no_placeholder_holder_first(
    a: Seq<char>,
    b: Seq<char>,
    c: Seq<char>,
    year: int,
    holder: Seq<char>,
)
    requires
        absent(a, year_token()),
        absent(b, year_token()),
        absent(c, year_token()),
        absent(a, holder_token()),
        absent(b, holder_token()),
        absent(c, holder_token()),
        absent(a + holder + b, year_token()),
        absent(a + holder + b, holder_token()),
    ensures
        absent(rendered(a + holder_token() + b + year_token() + c, year, holder), year_token()),
        absent(rendered(a + holder_token() + b + year_token() + c, year, holder), holder_token()),
{
    lemma_render_in_place_holder_first(a, b, c, year, holder);
    lemma_no_placeholder_around_year(a + holder + b, year, c);
}

/// Relies on chrono's `Local::now` and `Datelike::year`: the calendar year of
/// the local clock at the moment of the call.
#[verifier::external_body]
fn current_year() -> (y: i32) {
    chrono::Local::now().year()
}

/// Fills `year` and `holder` into `template`, year first.
pub fn render(template: &str, year: i32, holder: &str) -> (r: String)
    ensures
        r@ == rendered(template@, year as int, holder@),
{
    proof {
        reveal_strlit("<YEAR>");
        reveal_strlit("<COPYRIGHT_HOLDER>");
    }
    assert("<YEAR>"@ =~= year_token());
    assert("<COPYRIGHT_HOLDER>"@ =~= holder_token());
    let year_text = decimal_text(year);
    let with_year = replace_all(template, "<YEAR>", year_text.as_str());
    replace_all(with_year.as_str(), "<COPYRIGHT_HOLDER>", holder)
}

/// Fills the current year and `holder` into `template`.
pub fn fill_in_details(template: &str, holder: &str) -> (r: String)
    ensures
        exists|year: i32| r@ == rendered(template@, year as int, holder@),
{
    let year = current_year();
    render(template, year, holder)
}

} // verus!
