pub mod columnar_menu;
pub mod grid;
pub mod layout;
pub mod style;
pub mod text;

pub use columnar_menu::{ColumnarMenu, MenuEvent, Palette};
pub use style::MenuTextStyle;
pub use text::{Completer, Editor, Span, Suggestion};
