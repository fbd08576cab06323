//! The document model: sections of paragraphs, whose controls may be tables
//! (cells of paragraphs), text boxes (paragraphs) or form objects, and the
//! document-wide shape tables that paragraphs and cells refer to by id.
use vstd::prelude::*;

verus! {

/// The kind of a form object.
#[derive(Clone, Copy, Debug, PartialEq, Eq, Structural)]
pub enum FormType {
    PushButton,
    CheckBox,
    ComboBox,
    RadioButton,
    Edit,
}

/// A form object (button, check box, combo box, radio button, edit box).
#[derive(Debug)]
pub struct FormObject {
    pub form_type: FormType,
    pub name: String,
    pub caption: String,
    pub text: String,
    pub width: u32,
    pub height: u32,
    pub fore_color: u32,
    pub back_color: u32,
    pub value: i32,
    pub enabled: bool,
    /// Extra properties as (name, value) pairs, in key order.
    pub properties: Vec<(String, String)>,
}

/// A field range of a paragraph; it refers to its control by index.
#[derive(Clone, Copy, Debug, Default)]
pub struct FieldRange {
    pub start_char_idx: usize,
    pub end_char_idx: usize,
    pub control_idx: usize,
}

/// One laid-out line of a paragraph (HWPUNIT).
#[derive(Clone, Copy, Debug, Default)]
pub struct LineSeg {
    pub vertical_pos: i32,
    pub line_height: i32,
    pub line_spacing: i32,
}

/// A character-shape run: from `start_pos` (a UTF-16 position) on, the
/// characters use `char_shape_id`.
#[derive(Clone, Copy, Debug, Default)]
pub struct CharShapeRef {
    pub start_pos: u32,
    pub char_shape_id: u32,
}

/// A paragraph: its text, the controls anchored in it, and per-character data.
#[derive(Debug, Default)]
pub struct Paragraph {
    pub text: String,
    pub controls: Vec<Control>,
    /// UTF-16 position of each character; every control takes eight units.
    pub char_offsets: Vec<u32>,
    pub char_shapes: Vec<CharShapeRef>,
    pub line_segs: Vec<LineSeg>,
    pub para_shape_id: u16,
    pub field_ranges: Vec<FieldRange>,
    pub ctrl_data_records: Vec<Option<Vec<u8>>>,
}

/// A control anchored in a paragraph.
#[derive(Debug)]
pub enum Control {
    Table(Box<Table>),
    Shape(Box<Shape>),
    Form(Box<FormObject>),
    Other,
}

/// A drawing object; a text box when it carries paragraphs.
#[derive(Debug, Default)]
pub struct Shape {
    pub text_box: Option<TextBox>,
}

#[derive(Debug, Default)]
pub struct TextBox {
    pub paragraphs: Vec<Paragraph>,
}

#[derive(Clone, Copy, Debug, PartialEq, Eq, Structural, Default)]
pub enum TablePageBreak {
    #[default]
    NoBreak,
    CellBreak,
    RowBreak,
}

#[derive(Clone, Copy, Debug, PartialEq, Eq, Structural, Default)]
pub enum VerticalAlign {
    #[default]
    Top,
    Center,
    Bottom,
}

#[derive(Clone, Copy, Debug, Default)]
pub struct Padding {
    pub left: i16,
    pub right: i16,
    pub top: i16,
    pub bottom: i16,
}

#[derive(Debug, Default)]
pub struct Cell {
    pub row: u16,
    pub col: u16,
    pub row_span: u16,
    pub col_span: u16,
    pub height: u32,
    pub border_fill_id: u16,
    pub padding: Padding,
    pub vertical_align: VerticalAlign,
    pub paragraphs: Vec<Paragraph>,
}

#[derive(Debug, Default)]
pub struct Table {
    pub row_count: u16,
    pub col_count: u16,
    pub cells: Vec<Cell>,
    /// The control's common header as stored in the file.
    pub raw_ctrl_data: Vec<u8>,
    pub page_break: TablePageBreak,
}

#[derive(Clone, Copy, Debug, Default)]
pub struct PageDef {
    pub width: u32,
    pub height: u32,
    pub margin_left: u32,
    pub margin_right: u32,
    pub margin_top: u32,
    pub margin_bottom: u32,
    pub margin_header: u32,
    pub margin_footer: u32,
}

#[derive(Clone, Copy, Debug, Default)]
pub struct SectionDef {
    pub page_def: PageDef,
}

#[derive(Debug, Default)]
pub struct Section {
    pub section_def: SectionDef,
    pub paragraphs: Vec<Paragraph>,
    /// The section's stream as read from the file, kept until an edit.
    pub raw_stream: Option<Vec<u8>>,
}

#[derive(Clone, Copy, Debug, PartialEq, Eq, Structural, Default)]
pub enum FillType {
    #[default]
    NoFill,
    Solid,
    Gradient,
    Image,
}

#[derive(Clone, Copy, Debug, Default)]
pub struct SolidFill {
    /// COLORREF (0x00BBGGRR).
    pub background_color: u32,
}

#[derive(Clone, Copy, Debug, Default)]
pub struct Fill {
    pub fill_type: FillType,
    pub solid: Option<SolidFill>,
}

#[derive(Clone, Copy, Debug, Default)]
pub struct BorderLine {
    /// The line kind as stored in the file (0 = none).
    pub line_type: u8,
}

#[derive(Clone, Copy, Debug, Default)]
pub struct BorderFill {
    /// Left, right, top, bottom.
    pub borders: [BorderLine; 4],
    pub fill: Fill,
}

#[derive(Clone, Copy, Debug, PartialEq, Eq, Structural, Default)]
pub enum Alignment {
    #[default]
    Justify,
    Left,
    Right,
    Center,
    Distribute,
    Split,
}

#[derive(Clone, Copy, Debug, Default)]
pub struct ParaShape {
    /// Space before the paragraph, stored at twice its HWPUNIT value.
    pub spacing_before: i32,
    pub alignment: Alignment,
}

#[derive(Clone, Copy, Debug, Default)]
pub struct CharShape {
    /// COLORREF (0x00BBGGRR).
    pub text_color: u32,
    /// Size in 1/100 pt.
    pub base_size: i32,
}

#[derive(Debug, Default)]
pub struct DocInfo {
    pub border_fills: Vec<BorderFill>,
    pub char_shapes: Vec<CharShape>,
    pub para_shapes: Vec<ParaShape>,
}

#[derive(Debug, Default)]
pub struct Document {
    pub doc_info: DocInfo,
    pub sections: Vec<Section>,
    /// Other storage streams by path (such as the document script).
    pub extra_streams: Vec<(String, Vec<u8>)>,
}

#[derive(Debug, Default)]
pub struct DocumentCore {
    pub document: Document,
}

/// Length of a drawing object's common header (flags, offsets, size,
/// z-order, margins, instance id).
pub const CTRL_HEADER_MIN_LEN: usize = 36;

/// Where the 32-bit flags stand in the common header.
pub const CTRL_HEADER_FLAGS_AT: usize = 0;

/// Where the 32-bit instance id stands in the common header.
pub const CTRL_HEADER_INSTANCE_ID_AT: usize = 32;

/// Errors of the document operations.
#[derive(Debug)]
pub enum HwpError {
    RenderError(String),
}

impl DocumentCore {
    /// A document with no sections, shapes or streams.
    pub fn new_empty() -> (d: DocumentCore)
        ensures
            d.document.sections@.len() == 0,
            d.document.doc_info.border_fills@.len() == 0,
            d.document.doc_info.char_shapes@.len() == 0,
            d.document.doc_info.para_shapes@.len() == 0,
            d.document.extra_streams@.len() == 0,
    {
        DocumentCore {
            document: Document {
                doc_info: DocInfo {
                    border_fills: Vec::new(),
                    char_shapes: Vec::new(),
                    para_shapes: Vec::new(),
                },
                sections: Vec::new(),
                extra_streams: Vec::new(),
            },
        }
    }
}

} // verus!
