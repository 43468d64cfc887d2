//! Tables drawn on the terminal.

use vstd::prelude::*;
use comfy_table::presets::ASCII_FULL;
use comfy_table::Table;

verus! {

/// The text comfy-table draws for a table with the `ASCII_FULL` preset,
/// the given header cells and rows of cells, and no other setting.
pub uninterp spec fn ascii_table(header: Seq<Seq<char>>, rows: Seq<Seq<Seq<char>>>) -> Seq<char>;

/// Draw a table with comfy-table's `ASCII_FULL` preset (`Table::new`,
/// `load_preset`, `set_header`, `add_rows`, `to_string`). Claims only that
/// the text is `ascii_table` of the cells: without a content arrangement
/// or styling, comfy-table's output does not depend on the terminal.
#[verifier::external_body]
pub fn draw(header: &Vec<String>, rows: &Vec<Vec<String>>) -> (r: String)
    ensures
        r@ == ascii_table(header.deep_view(), rows.deep_view()),
{
    let mut table = Table::new();
    table.load_preset(ASCII_FULL);
    table.set_header(header.clone());
    table.add_rows(rows.clone());
    table.to_string()
}

} // verus!
