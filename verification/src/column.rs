//! Column-option engine: normalizes the caller's per-column declarations —
//! a bare label or a full options object — into one fully populated
//! `ColumnOption` per column, filling every absent field with its
//! documented default.

use vstd::prelude::*;
use crate::order::Order;

verus! {

/// A displayable cell value, used where a default depends on the value's
/// kind.
pub enum CellValue {
    Int(i64),
    Text(String),
    Bool(bool),
}

/// Rendering context handed along with a row's record when a cell is
/// produced: the row's identity and positions, and whether the row is
/// focused or selected.
#[derive(Debug, Clone)]
pub struct RenderOptions<T> {
    pub data: T,
    pub id: String,
    pub is_focused: bool,
    pub is_selected: bool,
    pub data_index: usize,
    pub render_index: usize,
    pub local_index: usize,
}

/// Fully populated per-column settings.
pub struct ColumnOption {
    /// Column key; unique among the columns.
    pub key: String,
    /// Header display content.
    pub label: String,
    /// Whether the column's cells render as row headers.
    pub is_row_header: bool,
    /// Sort direction on first render.
    pub init_sort_order: Order,
    /// Whether the sort direction may be changed.
    pub sort_order_is_changeable: bool,
    /// Whether the column is hidden.
    pub is_hidden: bool,
    /// Initial column width, as a CSS track size.
    pub init_column_width: String,
    /// Text alignment.
    pub align: String,
    /// Whether the column displays totals.
    pub total: bool,
}

/// Caller-declared per-column settings; an absent field takes its default.
pub struct ColumnOptionArgs {
    pub label: String,
    pub is_row_header: Option<bool>,
    pub init_sort_order: Option<Order>,
    pub sort_order_is_changeable: Option<bool>,
    pub is_hidden: Option<bool>,
    pub init_column_width: Option<String>,
    pub align: Option<String>,
    pub total: Option<bool>,
}

/// One column's declaration: a bare label, or a full options object.
pub enum RenderMapValue {
    Label(String),
    Options(ColumnOptionArgs),
}

/// The caller's column declarations, in column order.
pub type RenderMap = Vec<(String, RenderMapValue)>;

/// The normalized per-column settings, in column order.
pub type ColumnOptionMap = Vec<(String, ColumnOption)>;

/// Whether the sort direction of a column named `key` may be changed by
/// default: it may not when the key starts with an underscore.
pub open spec fn spec_default_changeable(key: Seq<char>) -> bool {
    key.len() == 0 || key[0] != '_'
}

/// The fields every default column option has, `label` aside.
pub open spec fn spec_is_default_option(key: Seq<char>, r: ColumnOption) -> bool {
    &&& r.key@ == key
    &&& r.is_row_header == false
    &&& r.init_sort_order == Order::NoSort
    &&& r.sort_order_is_changeable == spec_default_changeable(key)
    &&& r.is_hidden == false
    &&& r.init_column_width@ == "minmax(max-content, 1fr)"@
    &&& r.align@ == "left"@
    &&& r.total == false
}

/// How a normalized option relates to a declaration: a bare label fills
/// only the label, an options object fills each given field, and every
/// absent field takes its default.
pub open spec fn spec_option_matches(key: Seq<char>, v: RenderMapValue, r: ColumnOption) -> bool {
    match v {
        RenderMapValue::Label(label) => {
            &&& r.label@ == label@
            &&& spec_is_default_option(key, r)
        },
        RenderMapValue::Options(args) => {
            &&& r.key@ == key
            &&& r.label@ == args.label@
            &&& r.is_row_header == (match args.is_row_header {
                Some(b) => b,
                None => false,
            })
            &&& r.init_sort_order == (match args.init_sort_order {
                Some(o) => o,
                None => Order::NoSort,
            })
            &&& r.sort_order_is_changeable == (match args.sort_order_is_changeable {
                Some(b) => b,
                None => spec_default_changeable(key),
            })
            &&& r.is_hidden == (match args.is_hidden {
                Some(b) => b,
                None => false,
            })
            &&& r.init_column_width@ == (match args.init_column_width {
                Some(w) => w@,
                None => "minmax(max-content, 1fr)"@,
            })
            &&& r.align@ == (match args.align {
                Some(a) => a@,
                None => "left"@,
            })
            &&& r.total == (match args.total {
                Some(b) => b,
                None => false,
            })
        },
    }
}

/// The label of a declaration: the bare label, or the options object's.
pub open spec fn spec_label_of(v: RenderMapValue) -> Seq<char> {
    match v {
        RenderMapValue::Label(label) => label@,
        RenderMapValue::Options(args) => args.label@,
    }
}

/// Default alignment for a cell value: numbers align right, everything
/// else left.
pub fn get_default_align(raw_value: &CellValue) -> (r: String)
    ensures
        r@ == (match *raw_value {
            CellValue::Int(_) => "right"@,
            _ => "left"@,
        }),
{
    match raw_value {
        CellValue::Int(_) => "right".to_owned(),
        _ => "left".to_owned(),
    }
}

/// The default column option for `key`: empty label, no row header, no
/// initial sort, changeable unless the key starts with an underscore, not
/// hidden, width `minmax(max-content, 1fr)`, aligned left, no totals.
pub fn default_column_option(key: &String) -> (r: ColumnOption)
    ensures
        r.label@ == Seq::<char>::empty(),
        spec_is_default_option(key@, r),
{
    let changeable = !key_starts_with_underscore(key);
    ColumnOption {
        key: key.clone(),
        label: String::new(),
        is_row_header: false,
        init_sort_order: Order::NoSort,
        sort_order_is_changeable: changeable,
        is_hidden: false,
        init_column_width: "minmax(max-content, 1fr)".to_owned(),
        align: "left".to_owned(),
        total: false,
    }
}

/// Whether the key's first character is an underscore.
fn key_starts_with_underscore(key: &String) -> (r: bool)
    ensures
        r == !spec_default_changeable(key@),
{
    let s = key.as_str();
    if s.unicode_len() == 0 {
        false
    } else {
        let c = s.get_char(0);
        c == '_'
    }
}

/// Normalizes one column declaration.
pub fn get_column_option(key: &String, render_map_value: &RenderMapValue) -> (r: ColumnOption)
    ensures
        spec_option_matches(key@, *render_map_value, r),
{
    let default_option = default_column_option(key);
    match render_map_value {
        RenderMapValue::Label(label) => ColumnOption { label: label.clone(), ..default_option },
        RenderMapValue::Options(args) => ColumnOption {
            label: args.label.clone(),
            is_row_header: match args.is_row_header {
                Some(b) => b,
                None => default_option.is_row_header,
            },
            init_sort_order: match args.init_sort_order {
                Some(o) => o,
                None => default_option.init_sort_order,
            },
            sort_order_is_changeable: match args.sort_order_is_changeable {
                Some(b) => b,
                None => default_option.sort_order_is_changeable,
            },
            is_hidden: match args.is_hidden {
                Some(b) => b,
                None => default_option.is_hidden,
            },
            init_column_width: match &args.init_column_width {
                Some(w) => w.clone(),
                None => default_option.init_column_width,
            },
            align: match &args.align {
                Some(a) => a.clone(),
                None => default_option.align,
            },
            total: match args.total {
                Some(b) => b,
                None => default_option.total,
            },
            ..default_option
        },
    }
}

/// Normalizes every column declaration, keeping the column order.
pub fn get_column_option_map(render_map: &RenderMap) -> (r: ColumnOptionMap)
    ensures
        r@.len() == render_map@.len(),
        forall|i: int| 0 <= i < r@.len() ==> #[trigger] r@[i].0@ == render_map@[i].0@,
        forall|i: int|
            0 <= i < r@.len() ==> spec_option_matches(
                render_map@[i].0@,
                render_map@[i].1,
                #[trigger] r@[i].1,
            ),
{
    let mut out: ColumnOptionMap = Vec::new();
    let mut i: usize = 0;
    while i < render_map.len()
        invariant
            0 <= i <= render_map@.len(),
            out@.len() == i,
            forall|j: int| 0 <= j < i ==> #[trigger] out@[j].0@ == render_map@[j].0@,
            forall|j: int|
                0 <= j < i ==> spec_option_matches(
                    render_map@[j].0@,
                    render_map@[j].1,
                    #[trigger] out@[j].1,
                ),
        decreases render_map@.len() - i,
    {
        let option = get_column_option(&render_map[i].0, &render_map[i].1);
        out.push((render_map[i].0.clone(), option));
        i = i + 1;
    }
    out
}

/// The label of every column declaration, keeping the column order.
pub fn get_label_map(render_map: &RenderMap) -> (r: Vec<(String, String)>)
    ensures
        r@.len() == render_map@.len(),
        forall|i: int| 0 <= i < r@.len() ==> #[trigger] r@[i].0@ == render_map@[i].0@,
        forall|i: int| 0 <= i < r@.len() ==> #[trigger] r@[i].1@ == spec_label_of(render_map@[i].1),
{
    let mut out: Vec<(String, String)> = Vec::new();
    let mut i: usize = 0;
    while i < render_map.len()
        invariant
            0 <= i <= render_map@.len(),
            out@.len() == i,
            forall|j: int| 0 <= j < i ==> #[trigger] out@[j].0@ == render_map@[j].0@,
            forall|j: int| 0 <= j < i ==> #[trigger] out@[j].1@ == spec_label_of(render_map@[j].1),
        decreases render_map@.len() - i,
    {
        let label = match &render_map[i].1 {
            RenderMapValue::Label(label) => label.clone(),
            RenderMapValue::Options(args) => args.label.clone(),
        };
        out.push((render_map[i].0.clone(), label));
        i = i + 1;
    }
    out
}

/// Whether a declaration is a full options object.
pub fn is_column_option_args_object(value: &RenderMapValue) -> (r: bool)
    ensures
        r == (value is Options),
{
    matches!(value, RenderMapValue::Options(_))
}

impl crate::bundle::HasRowHeader for ColumnOption {
    open spec fn spec_is_row_header(&self) -> bool {
        self.is_row_header
    }

    fn is_row_header(&self) -> (r: bool)
        ensures
            r == self.spec_is_row_header(),
    {
        self.is_row_header
    }
}

/// A render map of bare labels normalizes to labels and defaults: each
/// column's option carries the declared label and every other field equal
/// to its documented default.
pub proof fn lemma_bare_labels_normalize(key: Seq<char>, label: String, r: ColumnOption)
    requires
        spec_option_matches(key, RenderMapValue::Label(label), r),
    ensures
        r.label@ == label@,
        r.key@ == key,
        r.is_row_header == false,
        r.init_sort_order == Order::NoSort,
        r.sort_order_is_changeable == spec_default_changeable(key),
        r.is_hidden == false,
        r.init_column_width@ == "minmax(max-content, 1fr)"@,
        r.align@ == "left"@,
        r.total == false,
{
}

} // verus!
