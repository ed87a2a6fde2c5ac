//! Shapes as the inspector shows them: the records of the geometry
//! snapshot, the lines describing a selected shape and its owner, whether
//! it can be edited, which instance a click picks, and the labels drawn on
//! shapes.

use vstd::prelude::*;
use crate::geometry::{Point32, Rect32, spec_union_rect, union_rect};
use crate::text::{decimal, int_decimal, trim, str_chars, trim_chars, push_str,
    push_decimal, push_int_decimal, push_char, string_from_str, string_from_chars, split, split_chars,
    sub_chars, views};
use crate::visibility::{OwnerType, owner_type_of_raw};
use vstd::string::StrSliceExecFns;

verus! {

/// The kinds of shape a record holds, with their raw codes.
#[derive(Clone, Copy, Debug, PartialEq, Eq, Structural)]
pub enum ShapeKind {
    Rect,
    Line,
    Point,
}

/// The raw code of a shape kind (0 is no kind).
pub open spec fn kind_raw(k: ShapeKind) -> u8 {
    match k {
        ShapeKind::Rect => 1,
        ShapeKind::Line => 2,
        ShapeKind::Point => 3,
    }
}

impl ShapeKind {
    /// The raw code (see `kind_raw`).
    pub fn raw(self) -> (r: u8)
        ensures
            r == kind_raw(self),
    {
        match self {
            ShapeKind::Rect => 1,
            ShapeKind::Line => 2,
            ShapeKind::Point => 3,
        }
    }
}

/// Whether a shape record is live, with raw codes.
#[derive(Clone, Copy, Debug, PartialEq, Eq, Structural)]
pub enum ShapeState {
    Alive,
    Deleted,
}

/// The raw code of a shape state (0 is no state).
pub open spec fn state_raw(s: ShapeState) -> u8 {
    match s {
        ShapeState::Alive => 1,
        ShapeState::Deleted => 2,
    }
}

impl ShapeState {
    /// The raw code (see `state_raw`).
    pub fn raw(self) -> (r: u8)
        ensures
            r == state_raw(self),
    {
        match self {
            ShapeState::Alive => 1,
            ShapeState::Deleted => 2,
        }
    }
}

/// One shape of the geometry snapshot.
#[derive(Clone, Copy, Debug, PartialEq, Eq, Structural)]
pub struct ShapeRecord {
    pub id: u64,
    pub version: u32,
    pub layer_id: u16,
    pub kind: u8,
    pub state: u8,
    pub flags: u16,
    pub owner_index: u32,
    pub bbox: Rect32,
}

impl Default for ShapeRecord {
    fn default() -> (r: Self)
        ensures
            r == (ShapeRecord {
                id: 0,
                version: 0,
                layer_id: 0,
                kind: 0,
                state: 0,
                flags: 0,
                owner_index: 0,
                bbox: Rect32 { lx: 0, ly: 0, hx: 0, hy: 0 },
            }),
    {
        ShapeRecord {
            id: 0,
            version: 0,
            layer_id: 0,
            kind: 0,
            state: 0,
            flags: 0,
            owner_index: 0,
            bbox: Rect32 { lx: 0, ly: 0, hx: 0, hy: 0 },
        }
    }
}

/// The design object a shape belongs to.
#[derive(Clone, Copy, Debug, PartialEq, Eq, Structural)]
pub struct OwnerRef {
    pub owner_type: u8,
    pub flags: u16,
    pub owner_id: u64,
    pub path0: u32,
    pub path1: u32,
    pub path2: u32,
    pub path3: u32,
    pub name_id: u32,
}

impl Default for OwnerRef {
    fn default() -> (r: Self)
        ensures
            r == (OwnerRef {
                owner_type: 0,
                flags: 0,
                owner_id: 0,
                path0: 0,
                path1: 0,
                path2: 0,
                path3: 0,
                name_id: 0,
            }),
    {
        OwnerRef {
            owner_type: 0,
            flags: 0,
            owner_id: 0,
            path0: 0,
            path1: 0,
            path2: 0,
            path3: 0,
            name_id: 0,
        }
    }
}

pub open spec fn kind_label(kind: u8) -> Seq<char> {
    if kind == 3 {
        "point"@
    } else if kind == 2 {
        "line"@
    } else if kind == 1 {
        "rect"@
    } else {
        "other"@
    }
}

/// `point`, `line`, `rect`, or `other` for an unknown code.
pub fn shape_kind_label(kind: u8) -> (r: &'static str)
    ensures
        r@ == kind_label(kind),
{
    if kind == ShapeKind::Point.raw() {
        "point"
    } else if kind == ShapeKind::Line.raw() {
        "line"
    } else if kind == ShapeKind::Rect.raw() {
        "rect"
    } else {
        "other"
    }
}

pub open spec fn state_label(state: u8) -> Seq<char> {
    if state == 1 {
        "alive"@
    } else if state == 2 {
        "deleted"@
    } else {
        "other"@
    }
}

/// `alive`, `deleted`, or `other` for an unknown code.
pub fn shape_state_label(state: u8) -> (r: &'static str)
    ensures
        r@ == state_label(state),
{
    if state == ShapeState::Alive.raw() {
        "alive"
    } else if state == ShapeState::Deleted.raw() {
        "deleted"
    } else {
        "other"
    }
}

/// `-` for an empty value, the value otherwise.
pub open spec fn or_dash(value: Seq<char>) -> Seq<char> {
    if value.len() == 0 {
        "-"@
    } else {
        value
    }
}

/// Shows an empty value as `-`.
pub fn empty_label(value: &str) -> (r: &str)
    ensures
        r@ == or_dash(value@),
{
    if value.is_empty() {
        "-"
    } else {
        value
    }
}

/// Rectangles, lines and points are drawn.
pub open spec fn renderable_kind(kind: u8) -> bool {
    kind == 1 || kind == 2 || kind == 3
}

/// Whether shapes of a kind are drawn (see `renderable_kind`).
pub fn is_renderable_shape_kind(kind: u8) -> (r: bool)
    ensures
        r == renderable_kind(kind),
{
    kind == ShapeKind::Rect.raw() || kind == ShapeKind::Line.raw() || kind == ShapeKind::Point.raw()
}

/// Whether a shape is drawn: alive and of a drawn kind.
pub fn is_renderable_shape(shape: &ShapeRecord) -> (r: bool)
    ensures
        r == (shape.state == 1 && renderable_kind(shape.kind)),
{
    shape.state == ShapeState::Alive.raw() && is_renderable_shape_kind(shape.kind)
}

/// A candidate that an instance drag may start on: an alive rectangle of
/// an instance box containing the point (edges included).
pub open spec fn editable_instance_at(shape: ShapeRecord, owner: OwnerRef, point: Point32) -> bool {
    &&& shape.state == 1
    &&& shape.kind == 1
    &&& owner_type_of_raw(owner.owner_type) == Some(OwnerType::InstanceBBox)
    &&& shape.bbox.lx <= point.x <= shape.bbox.hx
    &&& shape.bbox.ly <= point.y <= shape.bbox.hy
}

/// The last candidate, in drawing order, that an instance drag may start
/// on.
pub open spec fn topmost_editable(candidates: Seq<(ShapeRecord, OwnerRef)>, point: Point32) -> Option<
    u64,
>
    decreases candidates.len(),
{
    if candidates.len() == 0 {
        None
    } else if editable_instance_at(candidates.last().0, candidates.last().1, point) {
        Some(candidates.last().0.id)
    } else {
        topmost_editable(candidates.drop_last(), point)
    }
}

/// The instance box a click at `point` picks for moving (see
/// `topmost_editable`).
pub fn pick_top_editable_instance_bbox(candidates: &Vec<(ShapeRecord, OwnerRef)>, point: Point32) -> (r:
    Option<u64>)
    ensures
        r == topmost_editable(candidates@, point),
{
    let mut i = candidates.len();
    assert(candidates@.take(i as int) =~= candidates@);
    while i > 0
        invariant
            i <= candidates@.len(),
            topmost_editable(candidates@, point) == topmost_editable(candidates@.take(i as int), point),
        decreases i,
    {
        assert(candidates@.take(i as int).drop_last() =~= candidates@.take(i - 1));
        let (shape, owner) = candidates[i - 1];
        if shape.state == ShapeState::Alive.raw() && shape.kind == ShapeKind::Rect.raw() && OwnerType::from_raw(
            owner.owner_type,
        ) == Some(OwnerType::InstanceBBox) && point.x >= shape.bbox.lx && point.x <= shape.bbox.hx
            && point.y >= shape.bbox.ly && point.y <= shape.bbox.hy {
            return Some(shape.id);
        }
        i = i - 1;
    }
    assert(candidates@.take(0) =~= Seq::<(ShapeRecord, OwnerRef)>::empty());
    None
}

/// What the inspector says of editing a shape: nothing in a view-only
/// session; a read-only reason for a shape that is not alive, not a
/// rectangle, without owner, or whose owner is not an instance box (named
/// by `owner_type_label`); otherwise that it can be moved.
pub open spec fn capability_lines(
    shape: ShapeRecord,
    owner: Option<OwnerRef>,
    owner_type_label: Seq<char>,
    edit_enabled: bool,
) -> Seq<Seq<char>> {
    if !edit_enabled {
        seq!["edit: view-only session"@]
    } else if shape.state != 1 {
        seq!["edit: read-only, shape is not alive"@]
    } else if shape.kind != 1 {
        seq!["edit: read-only, only rect shapes are editable"@]
    } else {
        match owner {
            None => seq!["edit: read-only, owner unavailable"@],
            Some(o) => if owner_type_of_raw(o.owner_type) != Some(OwnerType::InstanceBBox) {
                seq!["edit: read-only, "@ + owner_type_label + " is not editable"@]
            } else {
                seq![
                    "edit: move"@,
                    "edit note: instance resize is rejected; move preserves master size"@,
                ]
            },
        }
    }
}

fn one_line(text: &str) -> (lines: Vec<String>)
    ensures
        crate::text::string_views(lines@) == seq![text@],
{
    let mut lines: Vec<String> = Vec::new();
    lines.push(string_from_str(text));
    assert(crate::text::string_views(lines@) =~= seq![text@]);
    lines
}

/// The edit lines of the inspector (see `capability_lines`);
/// `owner_type_label` is the owner type's name in the snapshot's
/// vocabulary.
pub fn edit_capability_lines(
    shape: &ShapeRecord,
    owner: Option<&OwnerRef>,
    owner_type_label: &str,
    edit_enabled: bool,
) -> (lines: Vec<String>)
    ensures
        crate::text::string_views(lines@) == capability_lines(
            *shape,
            match owner {
                Some(o) => Some(*o),
                None => None,
            },
            owner_type_label@,
            edit_enabled,
        ),
{
    if !edit_enabled {
        return one_line("edit: view-only session");
    }
    if shape.state != ShapeState::Alive.raw() {
        return one_line("edit: read-only, shape is not alive");
    }
    if shape.kind != ShapeKind::Rect.raw() {
        return one_line("edit: read-only, only rect shapes are editable");
    }
    let owner = match owner {
        Some(o) => o,
        None => {
            return one_line("edit: read-only, owner unavailable");
        },
    };
    if OwnerType::from_raw(owner.owner_type) != Some(OwnerType::InstanceBBox) {
        let mut line = String::new();
        push_str(&mut line, "edit: read-only, ");
        push_str(&mut line, owner_type_label);
        push_str(&mut line, " is not editable");
        let mut lines: Vec<String> = Vec::new();
        lines.push(line);
        assert(crate::text::string_views(lines@) =~= seq![
            "edit: read-only, "@ + owner_type_label@ + " is not editable"@,
        ]);
        return lines;
    }
    let mut lines: Vec<String> = Vec::new();
    lines.push(string_from_str("edit: move"));
    lines.push(string_from_str("edit note: instance resize is rejected; move preserves master size"));
    assert(crate::text::string_views(lines@) =~= seq![
        "edit: move"@,
        "edit note: instance resize is rejected; move preserves master size"@,
    ]);
    lines
}

/// The last `/`-separated part of a hierarchical name; the whole name when
/// it has no `/`.
pub open spec fn local_name(name: Seq<char>) -> Seq<char> {
    if exists|i: int| 0 <= i < name.len() && name[i] == '/' {
        let k = choose|k: int|
            0 <= k < name.len() && name[k] == '/' && forall|j: int| k < j < name.len() ==> name[j] != '/';
        name.subrange(k + 1, name.len() as int)
    } else {
        name
    }
}

/// The name after the last `/` (see `local_name`).
pub fn local_shape_label_name(name: &str) -> (r: &str)
    ensures
        r@ == local_name(name@),
{
    let chars = str_chars(name);
    let n = chars.len();
    let mut i = n;
    while i > 0
        invariant
            i <= n == chars@.len(),
            chars@ == name@,
            forall|j: int| i <= j < n ==> chars@[j] != '/',
        decreases i,
    {
        if chars[i - 1] == '/' {
            let ghost k = (i - 1) as int;
            assert(forall|j: int| k < j < n ==> name@[j] != '/');
            assert(local_name(name@) == name@.subrange(k + 1, n as int)) by {
                let c = choose|c: int|
                    0 <= c < name@.len() && name@[c] == '/' && forall|j: int|
                        c < j < name@.len() ==> name@[j] != '/';
                if c < k {
                    assert(name@[k] == '/');
                }
                if c > k {
                    assert(name@[c] != '/');
                }
            }
            return name.substring_char(i, n);
        }
        i = i - 1;
    }
    assert(forall|j: int| 0 <= j < name@.len() ==> name@[j] != '/');
    name
}

/// `\n` and `\r` replaced by spaces, so a query stays on one line.
pub open spec fn one_line_text(text: Seq<char>) -> Seq<char> {
    text.map_values(|c: char| if c == '\n' || c == '\r' { ' ' } else { c })
}

/// Puts query text on one line (see `one_line_text`).
pub fn single_line_query_text(text: &str) -> (r: String)
    ensures
        r@ == one_line_text(text@),
{
    let chars = str_chars(text);
    let mut out: Vec<char> = Vec::new();
    let n = chars.len();
    for i in 0..n
        invariant
            n == chars@.len(),
            chars@ == text@,
            out@ == one_line_text(chars@.take(i as int)),
    {
        let c = chars[i];
        let d = if c == '\n' || c == '\r' {
            ' '
        } else {
            c
        };
        out.push(d);
        assert(one_line_text(chars@.take(i + 1)) =~= one_line_text(chars@.take(i as int)).push(d));
    }
    assert(chars@.take(n as int) =~= chars@);
    string_from_chars(&out)
}

/// The owner's local information: its kind and `key:value` fields.
pub struct OwnerLocalInfo {
    pub kind: String,
    pub fields: Vec<(String, String)>,
}

/// The fields of a local information record as character sequences.
pub open spec fn field_views(f: Seq<(String, String)>) -> Seq<(Seq<char>, Seq<char>)> {
    f.map_values(|p: (String, String)| (p.0@, p.1@))
}

/// The value of the first field under `key`.
pub open spec fn field_of(fields: Seq<(Seq<char>, Seq<char>)>, key: Seq<char>) -> Option<Seq<char>>
    decreases fields.len(),
{
    if fields.len() == 0 {
        None
    } else if fields[0].0 == key {
        Some(fields[0].1)
    } else {
        field_of(fields.drop_first(), key)
    }
}

impl OwnerLocalInfo {
    /// The value of the first field under `key`.
    pub fn field(&self, key: &str) -> (r: Option<&str>)
        ensures
            match r {
                Some(v) => field_of(field_views(self.fields@), key@) == Some(v@),
                None => field_of(field_views(self.fields@), key@) is None,
            },
    {
        let n = self.fields.len();
        let mut i: usize = 0;
        assert(field_views(self.fields@).skip(0) =~= field_views(self.fields@));
        while i < n
            invariant
                n == self.fields@.len(),
                i <= n,
                field_of(field_views(self.fields@).skip(i as int), key@) == field_of(
                    field_views(self.fields@),
                    key@,
                ),
            decreases n - i,
        {
            assert(field_views(self.fields@).skip(i as int).drop_first() =~= field_views(
                self.fields@,
            ).skip(i + 1));
            assert(field_views(self.fields@).skip(i as int)[0] == (
                self.fields@[i as int].0@,
                self.fields@[i as int].1@,
            ));
            let k = str_chars(self.fields[i].0.as_str());
            if crate::text::chars_eq_str(&k, key) {
                return Some(self.fields[i].1.as_str());
            }
            i = i + 1;
        }
        None
    }
}

/// A token holds a `:`.
pub open spec fn has_colon(t: Seq<char>) -> bool {
    exists|k: int| 0 <= k < t.len() && t[k] == ':'
}

/// The index of a token's first `:`.
pub open spec fn first_colon(t: Seq<char>) -> int {
    choose|k: int| 0 <= k < t.len() && t[k] == ':' && forall|j: int| 0 <= j < k ==> t[j] != ':'
}

/// A `key:value` token cut at its first `:`; nothing for a token without
/// one.
pub open spec fn token_field(t: Seq<char>) -> Option<(Seq<char>, Seq<char>)> {
    if has_colon(t) {
        let k = first_colon(t);
        Some((t.subrange(0, k), t.subrange(k + 1, t.len() as int)))
    } else {
        None
    }
}

/// The fields of the tokens that hold a `:`, in order.
pub open spec fn token_fields(tokens: Seq<Seq<char>>) -> Seq<(Seq<char>, Seq<char>)>
    decreases tokens.len(),
{
    if tokens.len() == 0 {
        Seq::empty()
    } else {
        let rest = token_fields(tokens.drop_last());
        match token_field(tokens.last()) {
            Some(f) => rest.push(f),
            None => rest,
        }
    }
}

/// A local name read as space-separated `key:value` tokens: the fields in
/// order, and as kind the key of the first; nothing when no token holds a
/// `:`.
pub open spec fn parse_local_info(text: Seq<char>) -> Option<(Seq<char>, Seq<(Seq<char>, Seq<char>)>)> {
    let fields = token_fields(split(text, ' '));
    if fields.len() == 0 {
        None
    } else {
        Some((fields[0].0, fields))
    }
}

fn colon_index(t: &Vec<char>) -> (r: Option<usize>)
    ensures
        match r {
            Some(k) => k < t@.len() && t@[k as int] == ':' && forall|j: int| 0 <= j < k ==> t@[j] != ':',
            None => !has_colon(t@),
        },
{
    let n = t.len();
    let mut j: usize = 0;
    while j < n
        invariant
            n == t@.len(),
            j <= n,
            forall|m: int| 0 <= m < j ==> t@[m] != ':',
        decreases n - j,
    {
        if t[j] == ':' {
            return Some(j);
        }
        j = j + 1;
    }
    None
}

impl OwnerLocalInfo {
    /// Reads a local name into its kind and fields (see
    /// `parse_local_info`).
    pub fn parse(text: &str) -> (r: Option<OwnerLocalInfo>)
        ensures
            match r {
                Some(info) => parse_local_info(text@) == Some((info.kind@, field_views(info.fields@))),
                None => parse_local_info(text@) is None,
            },
    {
        let chars = str_chars(text);
        let tokens = split_chars(&chars, ' ');
        let n = tokens.len();
        let mut fields: Vec<(String, String)> = Vec::new();
        for i in 0..n
            invariant
                n == tokens@.len(),
                views(tokens@) == split(text@, ' '),
                field_views(fields@) == token_fields(views(tokens@).take(i as int)),
        {
            let t = &tokens[i];
            proof {
                assert(views(tokens@).take(i + 1).drop_last() =~= views(tokens@).take(i as int));
                assert(views(tokens@).take(i + 1).last() == t@);
            }
            match colon_index(t) {
                Some(k) => {
                    proof {
                        assert(has_colon(t@));
                        let c = first_colon(t@);
                        assert(0 <= c < t@.len() && t@[c] == ':' && forall|j: int|
                            0 <= j < c ==> t@[j] != ':');
                        if c < k {
                            assert(t@[c] != ':');
                        }
                        if c > k {
                            assert(t@[k as int] != ':');
                        }
                        assert(c == k);
                    }
                    let key = string_from_chars(&sub_chars(t, 0, k));
                    let value = string_from_chars(&sub_chars(t, k + 1, t.len()));
                    let ghost before = field_views(fields@);
                    fields.push((key, value));
                    assert(field_views(fields@) =~= before.push((key@, value@)));
                },
                None => {},
            }
        }
        assert(views(tokens@).take(n as int) =~= views(tokens@));
        if fields.len() == 0 {
            None
        } else {
            let kind = string_from_str(fields[0].0.as_str());
            assert(field_views(fields@)[0] == (fields@[0].0@, fields@[0].1@));
            Some(OwnerLocalInfo { kind, fields })
        }
    }
}

/// `<label><value>` when the field is there.
pub open spec fn field_line(fields: Seq<(Seq<char>, Seq<char>)>, key: Seq<char>, label: Seq<char>) -> Seq<
    Seq<char>,
> {
    match field_of(fields, key) {
        Some(v) => seq![label + v],
        None => Seq::empty(),
    }
}

/// The field's value, or `?` when it is missing.
pub open spec fn or_question(v: Option<Seq<char>>) -> Seq<char> {
    match v {
        Some(s) => s,
        None => "?"@,
    }
}

/// `via layers: B / C / T` when one of the three layers is given.
pub open spec fn via_layers_line(f: Seq<(Seq<char>, Seq<char>)>) -> Seq<Seq<char>> {
    let bottom = field_of(f, "bottom"@);
    let cut = field_of(f, "cut"@);
    let top = field_of(f, "top"@);
    if bottom is Some || cut is Some || top is Some {
        seq![
            "via layers: "@ + or_question(bottom) + " / "@ + or_question(cut) + " / "@ + or_question(
                top,
            ),
        ]
    } else {
        Seq::empty()
    }
}

/// `via cut: size S spacing P` when one of the two is given.
pub open spec fn via_cut_line(f: Seq<(Seq<char>, Seq<char>)>) -> Seq<Seq<char>> {
    let cut_size = field_of(f, "cut_size"@);
    let cut_spacing = field_of(f, "cut_spacing"@);
    if cut_size is Some || cut_spacing is Some {
        seq!["via cut: size "@ + or_question(cut_size) + " spacing "@ + or_question(cut_spacing)]
    } else {
        Seq::empty()
    }
}

/// `via enclosure: bottom B top T` when one of the two is given.
pub open spec fn via_enclosure_line(f: Seq<(Seq<char>, Seq<char>)>) -> Seq<Seq<char>> {
    let enc_bottom = field_of(f, "enclosure_bottom"@);
    let enc_top = field_of(f, "enclosure_top"@);
    if enc_bottom is Some || enc_top is Some {
        seq!["via enclosure: bottom "@ + or_question(enc_bottom) + " top "@ + or_question(enc_top)]
    } else {
        Seq::empty()
    }
}

/// `via default: true` when the `default` field is `true`.
pub open spec fn via_default_line(f: Seq<(Seq<char>, Seq<char>)>) -> Seq<Seq<char>> {
    if field_of(f, "default"@) == Some("true"@) {
        seq!["via default: true"@]
    } else {
        Seq::empty()
    }
}

/// The lines describing a via's local information: its name, master,
/// type and rule, its three layers, its cuts, its enclosures, its rows and
/// columns, and whether it is a default via; a group of fields shows when
/// one of its fields is there, with `?` for the others.
pub open spec fn via_lines(f: Seq<(Seq<char>, Seq<char>)>) -> Seq<Seq<char>> {
    field_line(f, "via"@, "via: "@) + field_line(f, "master"@, "via master: "@) + field_line(
        f,
        "type"@,
        "via type: "@,
    ) + field_line(f, "rule"@, "via rule: "@) + via_layers_line(f) + via_cut_line(f)
        + via_enclosure_line(f) + field_line(f, "rowcol"@, "via row/col: "@) + via_default_line(f)
}

fn push_field_line(lines: &mut Vec<String>, info: &OwnerLocalInfo, key: &str, label: &str)
    ensures
        crate::text::string_views(final(lines)@) == crate::text::string_views(old(lines)@)
            + field_line(field_views(info.fields@), key@, label@),
{
    let ghost before = crate::text::string_views(lines@);
    match info.field(key) {
        Some(v) => {
            let mut line = String::new();
            push_str(&mut line, label);
            push_str(&mut line, v);
            lines.push(line);
            assert(crate::text::string_views(lines@) =~= before + seq![label@ + v@]);
        },
        None => {
            assert(crate::text::string_views(lines@) =~= before + Seq::<Seq<char>>::empty());
        },
    }
}

fn push_line(lines: &mut Vec<String>, line: String)
    ensures
        crate::text::string_views(final(lines)@) == crate::text::string_views(old(lines)@).push(line@),
{
    let ghost before = crate::text::string_views(lines@);
    lines.push(line);
    assert(crate::text::string_views(lines@) =~= before.push(line@));
}

fn push_or_question(line: &mut String, v: Option<&str>)
    ensures
        final(line)@ == old(line)@ + or_question(opt_str_view(v)),
{
    match v {
        Some(s) => push_str(line, s),
        None => push_str(line, "?"),
    }
}

pub open spec fn opt_str_view(v: Option<&str>) -> Option<Seq<char>> {
    match v {
        Some(s) => Some(s@),
        None => None,
    }
}

fn push_group(lines: &mut Vec<String>, Ghost(group): Ghost<Seq<Seq<char>>>, line: Option<String>)
    requires
        match line {
            Some(l) => group == seq![l@],
            None => group == Seq::<Seq<char>>::empty(),
        },
    ensures
        crate::text::string_views(final(lines)@) == crate::text::string_views(old(lines)@) + group,
{
    let ghost before = crate::text::string_views(lines@);
    match line {
        Some(l) => {
            lines.push(l);
            assert(crate::text::string_views(lines@) =~= before + group);
        },
        None => {
            assert(crate::text::string_views(lines@) =~= before + group);
        },
    }
}

fn via_layers(info: &OwnerLocalInfo) -> (line: Option<String>)
    ensures
        match line {
            Some(l) => via_layers_line(field_views(info.fields@)) == seq![l@],
            None => via_layers_line(field_views(info.fields@)) == Seq::<Seq<char>>::empty(),
        },
{
    let bottom = info.field("bottom");
    let cut = info.field("cut");
    let top = info.field("top");
    if bottom.is_some() || cut.is_some() || top.is_some() {
        let mut line = String::new();
        push_str(&mut line, "via layers: ");
        push_or_question(&mut line, bottom);
        push_str(&mut line, " / ");
        push_or_question(&mut line, cut);
        push_str(&mut line, " / ");
        push_or_question(&mut line, top);
        Some(line)
    } else {
        None
    }
}

fn via_cut(info: &OwnerLocalInfo) -> (line: Option<String>)
    ensures
        match line {
            Some(l) => via_cut_line(field_views(info.fields@)) == seq![l@],
            None => via_cut_line(field_views(info.fields@)) == Seq::<Seq<char>>::empty(),
        },
{
    let cut_size = info.field("cut_size");
    let cut_spacing = info.field("cut_spacing");
    if cut_size.is_some() || cut_spacing.is_some() {
        let mut line = String::new();
        push_str(&mut line, "via cut: size ");
        push_or_question(&mut line, cut_size);
        push_str(&mut line, " spacing ");
        push_or_question(&mut line, cut_spacing);
        Some(line)
    } else {
        None
    }
}

fn via_enclosure(info: &OwnerLocalInfo) -> (line: Option<String>)
    ensures
        match line {
            Some(l) => via_enclosure_line(field_views(info.fields@)) == seq![l@],
            None => via_enclosure_line(field_views(info.fields@)) == Seq::<Seq<char>>::empty(),
        },
{
    let enc_bottom = info.field("enclosure_bottom");
    let enc_top = info.field("enclosure_top");
    if enc_bottom.is_some() || enc_top.is_some() {
        let mut line = String::new();
        push_str(&mut line, "via enclosure: bottom ");
        push_or_question(&mut line, enc_bottom);
        push_str(&mut line, " top ");
        push_or_question(&mut line, enc_top);
        Some(line)
    } else {
        None
    }
}

fn via_default(info: &OwnerLocalInfo) -> (line: Option<String>)
    ensures
        match line {
            Some(l) => via_default_line(field_views(info.fields@)) == seq![l@],
            None => via_default_line(field_views(info.fields@)) == Seq::<Seq<char>>::empty(),
        },
{
    let is_default = match info.field("default") {
        Some(d) => {
            let dc = str_chars(d);
            crate::text::chars_eq_str(&dc, "true")
        },
        None => false,
    };
    if is_default {
        Some(string_from_str("via default: true"))
    } else {
        None
    }
}

/// The lines describing a via's local information (see `via_lines`).
pub fn via_local_info_lines(local_info: &OwnerLocalInfo) -> (lines: Vec<String>)
    ensures
        crate::text::string_views(lines@) == via_lines(field_views(local_info.fields@)),
{
    let ghost f = field_views(local_info.fields@);
    let mut lines: Vec<String> = Vec::new();
    assert(crate::text::string_views(lines@) =~= Seq::<Seq<char>>::empty());
    push_field_line(&mut lines, local_info, "via", "via: ");
    push_field_line(&mut lines, local_info, "master", "via master: ");
    push_field_line(&mut lines, local_info, "type", "via type: ");
    push_field_line(&mut lines, local_info, "rule", "via rule: ");
    push_group(&mut lines, Ghost(via_layers_line(f)), via_layers(local_info));
    push_group(&mut lines, Ghost(via_cut_line(f)), via_cut(local_info));
    push_group(&mut lines, Ghost(via_enclosure_line(f)), via_enclosure(local_info));
    push_field_line(&mut lines, local_info, "rowcol", "via row/col: ");
    push_group(&mut lines, Ghost(via_default_line(f)), via_default(local_info));
    assert(crate::text::string_views(lines@) =~= via_lines(f));
    lines
}

/// The lines of an owner's local information: a via's lines, or else its
/// master and site when it has them.
pub open spec fn local_info_lines(kind: Seq<char>, f: Seq<(Seq<char>, Seq<char>)>) -> Seq<Seq<char>> {
    if kind == "via"@ {
        via_lines(f)
    } else {
        field_line(f, "master"@, "master: "@) + field_line(f, "site"@, "site: "@)
    }
}

/// The lines of an owner's local information (see `local_info_lines`).
pub fn owner_local_info_lines(local_info: &OwnerLocalInfo) -> (lines: Vec<String>)
    ensures
        crate::text::string_views(lines@) == local_info_lines(local_info.kind@, field_views(local_info.fields@)),
{
    let kind = str_chars(local_info.kind.as_str());
    if crate::text::chars_eq_str(&kind, "via") {
        return via_local_info_lines(local_info);
    }
    let mut lines: Vec<String> = Vec::new();
    push_field_line(&mut lines, local_info, "master", "master: ");
    push_field_line(&mut lines, local_info, "site", "site: ");
    assert(crate::text::string_views(lines@) =~= local_info_lines(local_info.kind@, field_views(local_info.fields@)));
    lines
}


/// One hexadecimal digit, lowercase.
pub open spec fn hex_digit(d: nat) -> char {
    if d < 10 {
        ((d + 48) as u32) as char
    } else {
        ((d + 87) as u32) as char
    }
}

/// `{:04x}` of a 16-bit value: four lowercase hexadecimal digits.
pub open spec fn hex4(v: u16) -> Seq<char> {
    seq![
        hex_digit(((v as nat) / 4096) % 16),
        hex_digit(((v as nat) / 256) % 16),
        hex_digit(((v as nat) / 16) % 16),
        hex_digit((v as nat) % 16),
    ]
}

fn hex_digit_of(d: u16) -> (c: char)
    requires
        d < 16,
    ensures
        c == hex_digit(d as nat),
{
    if d < 10 {
        let code: u8 = 48u8 + d as u8;
        code as char
    } else {
        let code: u8 = 87u8 + d as u8;
        code as char
    }
}

fn push_hex4(s: &mut String, v: u16)
    ensures
        final(s)@ == old(s)@ + hex4(v),
{
    push_char(s, hex_digit_of((v / 4096) % 16));
    push_char(s, hex_digit_of((v / 256) % 16));
    push_char(s, hex_digit_of((v / 16) % 16));
    push_char(s, hex_digit_of(v % 16));
    assert(final(s)@ =~= old(s)@ + hex4(v)) by {
        assert(final(s)@ =~= old(s)@ + seq![
            hex_digit(((v / 4096) % 16) as nat),
            hex_digit(((v / 256) % 16) as nat),
            hex_digit(((v / 16) % 16) as nat),
            hex_digit((v % 16) as nat),
        ]);
    }
}

/// The lines of the inspector for the owner of a shape.
pub open spec fn owner_lines(
    owner: OwnerRef,
    owner_type_label: Seq<char>,
    owner_name: Option<Seq<char>>,
    owner_local_name: Option<Seq<char>>,
) -> Seq<Seq<char>> {
    seq!["owner: "@ + owner_type_label + " "@ + decimal(owner.owner_id as nat)] + seq![
        "owner flags: 0x"@ + hex4(owner.flags),
    ] + match owner_name {
        Some(n) => seq!["name: "@ + n],
        None => Seq::empty(),
    } + match owner_local_name {
        Some(l) => seq!["local name: "@ + l] + match parse_local_info(l) {
            Some((kind, fields)) => local_info_lines(kind, fields),
            None => Seq::empty(),
        },
        None => Seq::empty(),
    } + seq![
        "path: "@ + decimal(owner.path0 as nat) + " "@ + decimal(owner.path1 as nat) + " "@ + decimal(
            owner.path2 as nat,
        ) + " "@ + decimal(owner.path3 as nat),
    ]
}

/// The lines of the inspector for a selected shape: its id, kind, state,
/// version, layer, flags and box, then its owner's lines or that the owner
/// is unavailable; a local name is followed by the lines of the local
/// information read from it.
pub open spec fn detail_lines(
    shape: ShapeRecord,
    owner: Option<OwnerRef>,
    owner_type_label: Seq<char>,
    owner_name: Option<Seq<char>>,
    owner_local_name: Option<Seq<char>>,
) -> Seq<Seq<char>> {
    seq![
        "shape: "@ + decimal(shape.id as nat),
        "kind: "@ + kind_label(shape.kind),
        "state: "@ + state_label(shape.state),
        "version: "@ + decimal(shape.version as nat),
        "layer: "@ + decimal(shape.layer_id as nat),
        "flags: 0x"@ + hex4(shape.flags),
        "bbox: "@ + int_decimal(shape.bbox.lx as int) + " "@ + int_decimal(shape.bbox.ly as int) + " "@
            + int_decimal(shape.bbox.hx as int) + " "@ + int_decimal(shape.bbox.hy as int),
    ] + match owner {
        Some(o) => owner_lines(o, owner_type_label, owner_name, owner_local_name),
        None => seq!["owner: unavailable"@],
    }
}

fn shape_lines(shape: &ShapeRecord) -> (lines: Vec<String>)
    ensures
        crate::text::string_views(lines@) == detail_lines(*shape, None, Seq::empty(), None, None).take(7),
{
    let mut lines: Vec<String> = Vec::new();
    let mut l0 = String::new();
    push_str(&mut l0, "shape: ");
    push_decimal(&mut l0, shape.id);
    push_line(&mut lines, l0);
    let mut l1 = String::new();
    push_str(&mut l1, "kind: ");
    push_str(&mut l1, shape_kind_label(shape.kind));
    push_line(&mut lines, l1);
    let mut l2 = String::new();
    push_str(&mut l2, "state: ");
    push_str(&mut l2, shape_state_label(shape.state));
    push_line(&mut lines, l2);
    let mut l3 = String::new();
    push_str(&mut l3, "version: ");
    push_decimal(&mut l3, shape.version as u64);
    push_line(&mut lines, l3);
    let mut l4 = String::new();
    push_str(&mut l4, "layer: ");
    push_decimal(&mut l4, shape.layer_id as u64);
    push_line(&mut lines, l4);
    let mut l5 = String::new();
    push_str(&mut l5, "flags: 0x");
    push_hex4(&mut l5, shape.flags);
    push_line(&mut lines, l5);
    let mut l6 = String::new();
    push_str(&mut l6, "bbox: ");
    push_int_decimal(&mut l6, shape.bbox.lx as i64);
    push_str(&mut l6, " ");
    push_int_decimal(&mut l6, shape.bbox.ly as i64);
    push_str(&mut l6, " ");
    push_int_decimal(&mut l6, shape.bbox.hx as i64);
    push_str(&mut l6, " ");
    push_int_decimal(&mut l6, shape.bbox.hy as i64);
    push_line(&mut lines, l6);
    assert(crate::text::string_views(lines@) =~= detail_lines(*shape, None, Seq::empty(), None, None).take(7));
    lines
}

fn owner_detail_lines(
    lines: &mut Vec<String>,
    owner: &OwnerRef,
    owner_type_label: &str,
    owner_name: Option<&str>,
    owner_local_name: Option<&str>,
)
    ensures
        crate::text::string_views(final(lines)@) == crate::text::string_views(old(lines)@) + owner_lines(
            *owner,
            owner_type_label@,
            opt_str_view(owner_name),
            opt_str_view(owner_local_name),
        ),
{
    let ghost before = crate::text::string_views(lines@);
    let mut l0 = String::new();
    push_str(&mut l0, "owner: ");
    push_str(&mut l0, owner_type_label);
    push_str(&mut l0, " ");
    push_decimal(&mut l0, owner.owner_id);
    push_line(lines, l0);
    let mut l1 = String::new();
    push_str(&mut l1, "owner flags: 0x");
    push_hex4(&mut l1, owner.flags);
    push_line(lines, l1);
    let ghost after_flags = crate::text::string_views(lines@);
    match owner_name {
        Some(n) => {
            let mut l = String::new();
            push_str(&mut l, "name: ");
            push_str(&mut l, n);
            push_line(lines, l);
        },
        None => {},
    }
    let ghost after_name = crate::text::string_views(lines@);
    match owner_local_name {
        Some(local) => {
            let mut l = String::new();
            push_str(&mut l, "local name: ");
            push_str(&mut l, local);
            push_line(lines, l);
            match OwnerLocalInfo::parse(local) {
                Some(info) => {
                    let extra = owner_local_info_lines(&info);
                    let ghost mid = crate::text::string_views(lines@);
                    let mut k: usize = 0;
                    while k < extra.len()
                        invariant
                            k <= extra@.len(),
                            crate::text::string_views(lines@) == mid + crate::text::string_views(extra@).take(k as int),
                        decreases extra@.len() - k,
                    {
                        let copy = string_from_str(extra[k].as_str());
                        push_line(lines, copy);
                        assert(crate::text::string_views(extra@).take(k + 1) =~= crate::text::string_views(extra@).take(k as int).push(extra@[k as int]@));
                        k = k + 1;
                    }
                    assert(crate::text::string_views(extra@).take(k as int) =~= crate::text::string_views(extra@));
                },
                None => {},
            }
        },
        None => {},
    }
    let ghost after_local = crate::text::string_views(lines@);
    let mut lp = String::new();
    push_str(&mut lp, "path: ");
    push_decimal(&mut lp, owner.path0 as u64);
    push_str(&mut lp, " ");
    push_decimal(&mut lp, owner.path1 as u64);
    push_str(&mut lp, " ");
    push_decimal(&mut lp, owner.path2 as u64);
    push_str(&mut lp, " ");
    push_decimal(&mut lp, owner.path3 as u64);
    push_line(lines, lp);
    assert(crate::text::string_views(lines@) =~= before + owner_lines(
        *owner,
        owner_type_label@,
        opt_str_view(owner_name),
        opt_str_view(owner_local_name),
    ));
}

/// The inspector's lines for a selected shape (see `detail_lines`);
/// `owner_type_label` names the owner's type in the snapshot's vocabulary.
pub fn selection_detail_lines(
    shape: &ShapeRecord,
    owner: Option<&OwnerRef>,
    owner_type_label: &str,
    owner_name: Option<&str>,
    owner_local_name: Option<&str>,
) -> (lines: Vec<String>)
    ensures
        crate::text::string_views(lines@) == detail_lines(
            *shape,
            match owner {
                Some(o) => Some(*o),
                None => None,
            },
            owner_type_label@,
            opt_str_view(owner_name),
            opt_str_view(owner_local_name),
        ),
{
    let mut lines = shape_lines(shape);
    match owner {
        Some(o) => {
            owner_detail_lines(&mut lines, o, owner_type_label, owner_name, owner_local_name);
        },
        None => {
            push_line(&mut lines, string_from_str("owner: unavailable"));
        },
    }
    lines
}

/// The most endpoints listed one per line.
pub const MAX_SELECTION_ENDPOINT_LINES: usize = 6;

/// A net connection of the selected object.
pub struct ConnectivityMetadata {
    pub net_name: String,
    pub net_kind: String,
    pub endpoint_type: String,
    pub instance_name: String,
    pub pin_name: String,
    pub master_name: String,
}

/// `endpoint: TYPE INSTANCE PIN master:MASTER`, each empty value as `-`.
pub open spec fn endpoint_line(e: ConnectivityMetadata) -> Seq<char> {
    "endpoint: "@ + or_dash(e.endpoint_type@) + " "@ + or_dash(e.instance_name@) + " "@ + or_dash(
        e.pin_name@,
    ) + " master:"@ + or_dash(e.master_name@)
}

/// The connectivity lines: none without endpoints; else their count, the
/// first `MAX_SELECTION_ENDPOINT_LINES` endpoints, and how many were left
/// out.
pub open spec fn connectivity_lines(endpoints: Seq<ConnectivityMetadata>) -> Seq<Seq<char>> {
    let n = endpoints.len();
    let shown: nat = if n < MAX_SELECTION_ENDPOINT_LINES {
        n
    } else {
        MAX_SELECTION_ENDPOINT_LINES as nat
    };
    if n == 0 {
        Seq::empty()
    } else {
        seq!["connectivity endpoints: "@ + decimal(n)] + Seq::new(
            shown,
            |i: int| endpoint_line(endpoints[i]),
        ) + if n > MAX_SELECTION_ENDPOINT_LINES {
            seq!["endpoints omitted: "@ + decimal((n - MAX_SELECTION_ENDPOINT_LINES) as nat)]
        } else {
            Seq::empty()
        }
    }
}

/// One endpoint's line (see `endpoint_line`).
pub fn selection_connectivity_endpoint_line(endpoint: &ConnectivityMetadata) -> (line: String)
    ensures
        line@ == endpoint_line(*endpoint),
{
    let mut line = String::new();
    push_str(&mut line, "endpoint: ");
    push_str(&mut line, empty_label(endpoint.endpoint_type.as_str()));
    push_str(&mut line, " ");
    push_str(&mut line, empty_label(endpoint.instance_name.as_str()));
    push_str(&mut line, " ");
    push_str(&mut line, empty_label(endpoint.pin_name.as_str()));
    push_str(&mut line, " master:");
    push_str(&mut line, empty_label(endpoint.master_name.as_str()));
    line
}

/// The connectivity lines of a selection (see `connectivity_lines`).
pub fn selection_connectivity_lines(endpoints: &Vec<ConnectivityMetadata>) -> (lines: Vec<String>)
    ensures
        crate::text::string_views(lines@) == connectivity_lines(endpoints@),
{
    let n = endpoints.len();
    let mut lines: Vec<String> = Vec::new();
    if n == 0 {
        assert(crate::text::string_views(lines@) =~= connectivity_lines(endpoints@));
        return lines;
    }
    let mut header = String::new();
    push_str(&mut header, "connectivity endpoints: ");
    push_decimal(&mut header, n as u64);
    push_line(&mut lines, header);
    let shown: usize = if n < MAX_SELECTION_ENDPOINT_LINES {
        n
    } else {
        MAX_SELECTION_ENDPOINT_LINES
    };
    let ghost head = crate::text::string_views(lines@);
    for i in 0..shown
        invariant
            shown <= n == endpoints@.len(),
            crate::text::string_views(lines@) == head + Seq::new(
                i as nat,
                |k: int| endpoint_line(endpoints@[k]),
            ),
    {
        let line = selection_connectivity_endpoint_line(&endpoints[i]);
        push_line(&mut lines, line);
        assert(Seq::new((i + 1) as nat, |k: int| endpoint_line(endpoints@[k])) =~= Seq::new(
            i as nat,
            |k: int| endpoint_line(endpoints@[k]),
        ).push(endpoint_line(endpoints@[i as int])));
    }
    let ghost listed = crate::text::string_views(lines@);
    if n > MAX_SELECTION_ENDPOINT_LINES {
        let mut omitted = String::new();
        push_str(&mut omitted, "endpoints omitted: ");
        push_decimal(&mut omitted, (n - MAX_SELECTION_ENDPOINT_LINES) as u64);
        push_line(&mut lines, omitted);
    }
    assert(crate::text::string_views(lines@) =~= connectivity_lines(endpoints@));
    lines
}

/// The union of the boxes of the alive shapes owned by the die; none when
/// there are none. An owner index out of range owns nothing.
pub open spec fn die_bounds(shapes: Seq<ShapeRecord>, owners: Seq<OwnerRef>) -> Option<Rect32>
    decreases shapes.len(),
{
    if shapes.len() == 0 {
        None
    } else {
        let prev = die_bounds(shapes.drop_last(), owners);
        let s = shapes.last();
        if s.state == 1 && s.owner_index < owners.len() && owners[s.owner_index as int].owner_type
            == owner_raw_die() {
            match prev {
                Some(b) => Some(spec_union_rect(b, s.bbox)),
                None => Some(s.bbox),
            }
        } else {
            prev
        }
    }
}

/// The raw code of the die owner type.
pub open spec fn owner_raw_die() -> u8 {
    crate::visibility::owner_raw(OwnerType::Die)
}

/// The box that grid lines are clipped to (see `die_bounds`).
pub fn grid_reference_bounds_from_records(shapes: &Vec<ShapeRecord>, owners: &Vec<OwnerRef>) -> (r:
    Option<Rect32>)
    ensures
        r == die_bounds(shapes@, owners@),
{
    let die = OwnerType::Die.raw();
    let mut acc: Option<Rect32> = None;
    let n = shapes.len();
    for i in 0..n
        invariant
            n == shapes@.len(),
            die == owner_raw_die(),
            acc == die_bounds(shapes@.take(i as int), owners@),
    {
        assert(shapes@.take(i + 1).drop_last() =~= shapes@.take(i as int));
        let s = shapes[i];
        let idx = s.owner_index as usize;
        if s.state == ShapeState::Alive.raw() && idx < owners.len() && owners[idx].owner_type == die {
            acc = match acc {
                Some(b) => Some(union_rect(b, s.bbox)),
                None => Some(s.bbox),
            };
        }
    }
    assert(shapes@.take(n as int) =~= shapes@);
    acc
}

/// The kinds of label drawn on shapes.
#[derive(Clone, Copy, Debug, PartialEq, Eq, Structural)]
pub enum ShapeLabelKind {
    IoPin,
    Pin,
    Net,
    Pdn,
    Instance,
}

/// The label kind of an owner: I/O pins (and pins of the top level, whose
/// first path element is zero), instance pins, nets, power nets and
/// instances; other owners get no label.
pub open spec fn label_kind(owner_type: OwnerType, path0: u32) -> Option<ShapeLabelKind> {
    match owner_type {
        OwnerType::IoPinPortShape => Some(ShapeLabelKind::IoPin),
        OwnerType::PinPortShape => if path0 == 0 {
            Some(ShapeLabelKind::IoPin)
        } else {
            Some(ShapeLabelKind::Pin)
        },
        OwnerType::InstancePinPortShape => Some(ShapeLabelKind::Pin),
        OwnerType::NetWireSegment => Some(ShapeLabelKind::Net),
        OwnerType::SpecialWireSegment => Some(ShapeLabelKind::Pdn),
        OwnerType::InstanceBBox => Some(ShapeLabelKind::Instance),
        _ => None,
    }
}

/// The label kind of an owner (see `label_kind`).
pub fn shape_label_kind(owner_type: OwnerType, path0: u32) -> (r: Option<ShapeLabelKind>)
    ensures
        r == label_kind(owner_type, path0),
{
    match owner_type {
        OwnerType::IoPinPortShape => Some(ShapeLabelKind::IoPin),
        OwnerType::PinPortShape => if path0 == 0 {
            Some(ShapeLabelKind::IoPin)
        } else {
            Some(ShapeLabelKind::Pin)
        },
        OwnerType::InstancePinPortShape => Some(ShapeLabelKind::Pin),
        OwnerType::NetWireSegment => Some(ShapeLabelKind::Net),
        OwnerType::SpecialWireSegment => Some(ShapeLabelKind::Pdn),
        OwnerType::InstanceBBox => Some(ShapeLabelKind::Instance),
        _ => None,
    }
}

/// The text of a label: for a pin below the top level its local name,
/// otherwise the owner's name; trimmed; none when it is blank.
pub open spec fn label_text(
    kind: ShapeLabelKind,
    owner_type: OwnerType,
    path0: u32,
    owner_name: Seq<char>,
) -> Option<Seq<char>> {
    let text = if kind == ShapeLabelKind::Pin && (owner_type == OwnerType::PinPortShape || owner_type
        == OwnerType::InstancePinPortShape) && path0 != 0 {
        trim(local_name(owner_name))
    } else {
        trim(owner_name)
    };
    if text.len() > 0 {
        Some(text)
    } else {
        None
    }
}

/// The text of a label (see `label_text`).
pub fn shape_label_text(
    kind: ShapeLabelKind,
    owner_type: OwnerType,
    owner: &OwnerRef,
    owner_name: &str,
) -> (r: Option<String>)
    ensures
        opt_view(r) == label_text(kind, owner_type, owner.path0, owner_name@),
{
    let base: &str = if kind == ShapeLabelKind::Pin && (owner_type == OwnerType::PinPortShape
        || owner_type == OwnerType::InstancePinPortShape) && owner.path0 != 0 {
        local_shape_label_name(owner_name)
    } else {
        owner_name
    };
    let text = trim_chars(&str_chars(base));
    if text.len() > 0 {
        Some(string_from_chars(&text))
    } else {
        None
    }
}

pub open spec fn opt_view(s: Option<String>) -> Option<Seq<char>> {
    match s {
        Some(t) => Some(t@),
        None => None,
    }
}

/// What makes two labels the same: the text for I/O pins, nets and power
/// nets; the owner for pins and instances.
pub enum ShapeLabelKey {
    Named { kind: ShapeLabelKind, text: String },
    Owner { owner_type: u8, owner_id: u64 },
}

/// The key of a label (see `ShapeLabelKey`).
pub fn shape_label_key(kind: ShapeLabelKind, owner: &OwnerRef, owner_name: &str) -> (key: ShapeLabelKey)
    ensures
        match kind {
            ShapeLabelKind::IoPin | ShapeLabelKind::Net | ShapeLabelKind::Pdn => key matches ShapeLabelKey::Named { kind: k, text } && k == kind && text@ == trim(owner_name@),
            _ => key == (ShapeLabelKey::Owner { owner_type: owner.owner_type, owner_id: owner.owner_id }),
        },
{
    match kind {
        ShapeLabelKind::IoPin | ShapeLabelKind::Net | ShapeLabelKind::Pdn => {
            let text = string_from_chars(&trim_chars(&str_chars(owner_name)));
            ShapeLabelKey::Named { kind, text }
        },
        _ => ShapeLabelKey::Owner { owner_type: owner.owner_type, owner_id: owner.owner_id },
    }
}

} // verus!
