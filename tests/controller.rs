use dtee::{Char, Controller, Updates};

const INPUT_0001: &str = "┌───────┐\n│  SLA  │\n├───┬───┴─────────────┬───────────────╥─────┐\n│ U │ YearsAsCustomer │ NumberOfUnits ║ SLA │\n│   ├─────────────────┼───────────────╫─────┤\n│   │    [0..100]     │ [0..1000000]  ║ 1,2 │\n╞═══╪═════════════════╪═══════════════╬═════╡\n│ 1 │       <2        │    <1000      ║  1  │\n├───┼─────────────────┼───────────────╫─────┤\n│ 2 │       <2        │   >=1000      ║  2  │\n├───┼─────────────────┼───────────────╫─────┤\n│ 3 │      >=2        │     <500      ║  1  │\n├───┼─────────────────┼───────────────╫─────┤\n│ 4 │      >=2        │    >=500      ║  2  │\n└───┴─────────────────┴───────────────╨─────┘\n";
const INPUT_0002: &str = "┌─────────────────┐\n│  Order options  │\n├───┬───────────┬─┴─────╥─────────────────────╥─────────────┬───────────┐\n│ U │           │       ║    Order options    ║             │           │\n│   │ Customer  │ Order ╟──────────┬──────────╢ Description │ Reference │\n│   │   type    │ size  ║ Discount │ Priority ║             │           │\n│   ├───────────┼───────╫──────────┼──────────╫─────────────┼───────────┤\n│   │\"Business\",│       ║          │\"Normal\", ║             │           │\n│   │\"Private\"  │       ║          │ \"High\",  ║             │           │\n│   │           │       ║          │ \"Low\"    ║             │           │\n╞═══╪═══════════╪═══════╬══════════╪══════════╬═════════════╪═══════════╡\n│ 1 │\"Business\" │  <10  ║   0.10   │ \"Normal\" ║ Small order │   Ref 1   │\n├───┼───────────┼───────╫──────────┼──────────╫─────────────┼───────────┤\n│ 2 │\"Business\" │ >=10  ║   0.15   │  \"High\"  ║ Large order │   Ref 2   │\n├───┼───────────┼───────╫──────────┼──────────╫─────────────┼───────────┤\n│ 3 │\"Private\"  │   -   ║   0.05   │  \"Low\"   ║ All orders  │   Ref 3   │\n└───┴───────────┴───────╨──────────┴──────────╨─────────────┴───────────┘\n";
const INPUT_0003: &str = "\n\n┌───────┐   \n│  SLA  │\n\n├───┬───┴─────────────┬───────────────╥─────┐\n│ U │ YearsAsCustomer │ NumberOfUnits ║ SLA │   \n│   ├─────────────────┼───────────────╫─────┤\n│   │    [0..100]     │ [0..1000000]  ║ 1,2 │\n\n╞═══╪═════════════════╪═══════════════╬═════╡   \n│ 1 │       <2        │    <1000      ║  1  │\n├───┼─────────────────┼───────────────╫─────┤\n│ 2 │       <2        │   >=1000      ║  2  │   \n\n├───┼─────────────────┼───────────────╫─────┤\n│ 3 │      >=2        │     <500      ║  1  │\n├───┼─────────────────┼───────────────╫─────┤   \n│ 4 │      >=2        │    >=500      ║  2  │\n\n└───┴─────────────────┴───────────────╨─────┘\n   \n  \n";
const INPUT_0004: &str = "┌───┬───────────┬───────╥─────────────────────╥─────────────┬───────────┐\n│ U │           │       ║    Order options    ║             │           │\n│   │ Customer  │ Order ╟──────────┬──────────╢ Description │ Reference │\n│   │   type    │ size  ║ Discount │ Priority ║             │           │\n│   ├───────────┼───────╫──────────┼──────────╫─────────────┼───────────┤\n│   │\"Business\",│       ║          │\"Normal\", ║             │           │\n│   │\"Private\"  │       ║          │ \"High\",  ║             │           │\n│   │           │       ║          │ \"Low\"    ║             │           │\n╞═══╪═══════════╪═══════╬══════════╪══════════╬═════════════╪═══════════╡\n│ 1 │\"Business\" │  <10  ║   0.10   │ \"Normal\" ║ Small order │   Ref 1   │\n├───┼───────────┼───────╫──────────┼──────────╫─────────────┼───────────┤\n│ 2 │\"Business\" │ >=10  ║   0.15   │  \"High\"  ║ Large order │   Ref 2   │\n├───┼───────────┼───────╫──────────┼──────────╫─────────────┼───────────┤\n│ 3 │\"Private\"  │   -   ║   0.05   │  \"Low\"   ║ All orders  │   Ref 3   │\n└───┴───────────┴───────╨──────────┴──────────╨─────────────┴───────────┘\n";

#[allow(dead_code)]
enum Action {
    AssertPos(usize, usize),
    CellEnd(usize),
    CellNext(usize),
    CellPrev(usize),
    CellStart(usize),
    DeleteBefore(usize),
    DeleteUnder(usize),
    Insert(char, usize),
    InsertStr(String, usize),
    MoveDown(usize),
    MoveLeft(usize),
    MoveRight(usize),
    MoveUp(usize),
    RowEnd(usize),
    RowStart(usize),
    SplitLine(usize),
    ToggleCaretBlock,
    ToggleCaretUnderScore,
}

use Action::{
    AssertPos, CellEnd, CellNext, CellPrev, CellStart, DeleteBefore, DeleteUnder, Insert, InsertStr, MoveDown, MoveLeft,
    MoveRight, MoveUp, RowEnd, RowStart, SplitLine, ToggleCaretBlock, ToggleCaretUnderScore,
};

/// Prints the decision table like on paper.
#[allow(dead_code)]
fn paper(controller: &Controller) {
    println!("{}", text(controller));
}

/// The rows of the table, one per line, indented as in the expected values.
fn text(controller: &Controller) -> String {
    let mut output = String::new();
    output.push('\n');
    for row in controller.content() {
        output.push_str("    ");
        output.push_str(&row.text());
        output.push('\n');
    }
    output.push_str("  ");
    output
}

/// The visible part of the table, filled with `░`.
#[allow(dead_code)]
fn view(controller: &Controller) -> String {
    let mut output = String::new();
    let mut last_row = None;
    for (_, row_index, chr) in controller.visible_cells(Some(Char::from('░')), None, None) {
        if let Some(ix_row) = last_row {
            if row_index > ix_row {
                output.push('\n');
            }
        }
        output.push(chr.char());
        last_row = Some(row_index);
    }
    output
}

/// Runs the editor actions.
fn actions(controller: &mut Controller, actions: &[Action]) {
    actions.iter().for_each(|action| match action {
        Action::AssertPos(col_index, row_index) => {
            assert_eq!((*col_index, *row_index), controller.cursor().pos());
        }
        Action::MoveUp(n) => (0..*n).for_each(|_| {
            controller.cursor_move_up();
        }),
        Action::MoveRight(n) => (0..*n).for_each(|_| {
            controller.cursor_move_right();
        }),
        Action::MoveDown(n) => (0..*n).for_each(|_| {
            controller.cursor_move_down();
        }),
        Action::MoveLeft(n) => (0..*n).for_each(|_| {
            controller.cursor_move_left();
        }),
        Action::CellEnd(n) => (0..*n).for_each(|_| {
            controller.cursor_move_cell_end();
        }),
        Action::CellNext(n) => (0..*n).for_each(|_| {
            controller.cursor_move_cell_next();
        }),
        Action::CellPrev(n) => (0..*n).for_each(|_| {
            controller.cursor_move_cell_prev();
        }),
        Action::CellStart(n) => (0..*n).for_each(|_| {
            controller.cursor_move_cell_start();
        }),
        Action::Insert(ch, n) => (0..*n).for_each(|_| {
            controller.insert_char(*ch);
        }),
        Action::InsertStr(s, n) => (0..*n).for_each(|_| {
            for ch in s.chars() {
                controller.insert_char(ch);
            }
        }),
        Action::DeleteBefore(n) => (0..*n).for_each(|_| {
            controller.delete_char_before_cursor();
        }),
        Action::DeleteUnder(n) => (0..*n).for_each(|_| {
            controller.delete_char_under_cursor();
        }),
        Action::RowEnd(n) => (0..*n).for_each(|_| {
            controller.cursor_move_row_end();
        }),
        Action::RowStart(n) => (0..*n).for_each(|_| {
            controller.cursor_move_row_start();
        }),
        Action::SplitLine(n) => (0..*n).for_each(|_| {
            controller.split_line();
        }),
        Action::ToggleCaretBlock => {
            controller.cursor_toggle_caret_block();
        }
        Action::ToggleCaretUnderScore => {
            controller.cursor_toggle_caret_under_score();
        }
    })
}



#[test]
fn test_controller_new() {
  let expected = r#"
    ┌───────┐
    │  SLA  │
    ├───┬───┴─────────────┬───────────────╥─────┐
    │ U │ YearsAsCustomer │ NumberOfUnits ║ SLA │
    │   ├─────────────────┼───────────────╫─────┤
    │   │    [0..100]     │ [0..1000000]  ║ 1,2 │
    ╞═══╪═════════════════╪═══════════════╬═════╡
    │ 1 │       <2        │    <1000      ║  1  │
    ├───┼─────────────────┼───────────────╫─────┤
    │ 2 │       <2        │   >=1000      ║  2  │
    ├───┼─────────────────┼───────────────╫─────┤
    │ 3 │      >=2        │     <500      ║  1  │
    ├───┼─────────────────┼───────────────╫─────┤
    │ 4 │      >=2        │    >=500      ║  2  │
    └───┴─────────────────┴───────────────╨─────┘
  "#;
  const WIDTH: usize = 300; // this is a width of the display area
  const HEIGHT: usize = 200; // this is a height of the display area
                             // both width and height are greater than the width and height of the loaded content
  let mut controller = Controller::new(INPUT_0001).with_viewport(WIDTH, HEIGHT);
  assert_eq!(expected, text(&controller));
  // viewport size is set to the display size
  assert_eq!(format!("(0, 0, {WIDTH}, {HEIGHT})"), controller.viewport().to_string());
  // cursor position should be in the left top corner, but not at the '┌' character
  // that's why it is (1, 1) and NOT (0, 0)
  assert_eq!((1, 1), controller.cursor().pos());
  // this is the region of the edited text
  assert_eq!("(0, 0, 45, 15)", controller.content_region().to_string());
}

#[test]
fn test_controller_new_small() {
  let expected = r#"
    ┌───────┐
    │  SLA  │
    ├───┬───┴─────────────┬───────────────╥─────┐
    │ U │ YearsAsCustomer │ NumberOfUnits ║ SLA │
    │   ├─────────────────┼───────────────╫─────┤
    │   │    [0..100]     │ [0..1000000]  ║ 1,2 │
    ╞═══╪═════════════════╪═══════════════╬═════╡
    │ 1 │       <2        │    <1000      ║  1  │
    ├───┼─────────────────┼───────────────╫─────┤
    │ 2 │       <2        │   >=1000      ║  2  │
    ├───┼─────────────────┼───────────────╫─────┤
    │ 3 │      >=2        │     <500      ║  1  │
    ├───┼─────────────────┼───────────────╫─────┤
    │ 4 │      >=2        │    >=500      ║  2  │
    └───┴─────────────────┴───────────────╨─────┘
  "#;
  const WIDTH: usize = 10; // this is a width of the display area
  const HEIGHT: usize = 6; // this is a height of the display area
                           // both width and height are less than the width and height of the loaded content
  let mut controller = Controller::new(INPUT_0001).with_viewport(10, 6);
  assert_eq!(expected, text(&controller));
  // viewport size is set to the display size
  assert_eq!(format!("(0, 0, {WIDTH}, {HEIGHT})"), controller.viewport().to_string());
  // cursor position should be in the left top corner, but not at the '┌' character
  // that's why it is (1, 1) and NOT (0, 0)
  assert_eq!((1, 1), controller.cursor().pos());
  // this is the region of the edited text
  assert_eq!("(0, 0, 45, 15)", controller.content_region().to_string());
}




const CURSOR_MOVE_WIDTH: usize = 800;
const CURSOR_MOVE_HEIGHT: usize = 600;

/// After creating the controller, the cursor position should
/// be in the top left corner of the decision table, value (1, 1).
/// Because on the left side of the cursor is the border
/// of the decision table, so moving cursor to the left should
/// have no effect, cursor stays where it was.
#[test]
fn test_cursor_move__0001() {
  let mut controller = Controller::new(INPUT_0002).with_viewport(CURSOR_MOVE_WIDTH, CURSOR_MOVE_HEIGHT);
  // initial cursor position is (1, 1)
  assert_eq!((1, 1), controller.cursor().pos());
  // moving the cursor to the left shouldn't generate any change
  assert_eq!(Updates::default(), controller.cursor_move_left());
  // cursor position is still (1, 1)
  assert_eq!((1, 1), controller.cursor().pos());
}

/// Moving to the right should change the cursor position.
/// Moving then to the left should also update the position.
#[test]
fn test_cursor_move__0002() {
  let mut controller = Controller::new(INPUT_0002).with_viewport(CURSOR_MOVE_WIDTH, CURSOR_MOVE_HEIGHT);
  // initial cursor position is (1, 1)
  assert_eq!((1, 1), controller.cursor().pos());
  // moving the cursor to the right should generate a change without repaint
  assert_eq!(Some(false), controller.cursor_move_right().temporary());
  // cursor position is now (1, 2)
  assert_eq!((2, 1), controller.cursor().pos());
  // moving the cursor again to the left should generate a change without repaint
  assert_eq!((true, false, false, false), controller.cursor_move_left().get());
  // cursor position should be now (1, 1) again
  assert_eq!((1, 1), controller.cursor().pos());
}

/// Moving to the right should stop before the right border of the decision table.
/// After creating the controller, cursor is on the left-most side of the top cell
/// containing the information item name of the decision table.
/// This cell is 17 characters wide. So moving cursor to the right more
/// than 17 times should have no more effect.
#[test]
fn test_cursor_move__0003() {
  let mut controller = Controller::new(INPUT_0002).with_viewport(CURSOR_MOVE_WIDTH, CURSOR_MOVE_HEIGHT);
  // initial cursor position is (1, 1)
  assert_eq!((1, 1), controller.cursor().pos());
  // moving the cursor to the right 17 times should generate a change
  (1..=17).for_each(|_| {
    assert_eq!(Some(false), controller.cursor_move_right().temporary());
  });
  assert_eq!((18, 1), controller.cursor().pos());
  // now moving several time to the right should have no effect
  (1..=100).for_each(|_| {
    assert_eq!(None, controller.cursor_move_right().temporary());
    assert_eq!((18, 1), controller.cursor().pos());
  });
}

/// Moving to the right and back to the left but now the decision table
/// is wider than the viewing area. So cursor moves change the cursor position,
/// but also signal that the view should be updated (repainted), because
/// the character under the moved cursor should be brought into view.
#[test]
fn test_cursor_move__0004() {
  // The width of the viewing area is now less than the width of the decision table
  let mut controller = Controller::new(INPUT_0002).with_viewport(10, 21);
  // initial cursor position is (1, 1)
  assert_eq!((1, 1), controller.cursor().pos());
  // moving the cursor to the right 7 times should generate change without view update
  (1..=6).for_each(|i| {
    assert_eq!(Some(false), controller.cursor_move_right().temporary());
    assert_eq!((1 + i, 1), controller.cursor().pos());
  });
  assert_eq!((7, 1), controller.cursor().pos());
  // moving the cursor to the right 10 times should generate change with view update
  (1..=11).for_each(|i| {
    assert_eq!(Some(true), controller.cursor_move_right().temporary());
    assert_eq!((7 + i, 1), controller.cursor().pos());
  });
  assert_eq!((18, 1), controller.cursor().pos());
  // now moving again several times to the right should have no effect
  (1..=100).for_each(|_| {
    assert_eq!(None, controller.cursor_move_right().temporary());
    assert_eq!((18, 1), controller.cursor().pos());
  });
  // now we move back to the left several times
  // firstly moving to the left should generate change without update
  (1..=6).for_each(|i| {
    assert_eq!((true, false, false, false), controller.cursor_move_left().get());
    assert_eq!((18 - i, 1), controller.cursor().pos());
  });
  assert_eq!((12, 1), controller.cursor().pos());
  // secondly moving the cursor to the left 10 times should generate change with view update
  (1..=11).for_each(|i| {
    assert_eq!((true, false, true, false), controller.cursor_move_left().get());
    assert_eq!((12 - i, 1), controller.cursor().pos());
  });
  assert_eq!((1, 1), controller.cursor().pos());
  // finally moving to the left several times should have no effect
  (1..=100).for_each(|_| {
    assert_eq!((false, false, false, false), controller.cursor_move_left().get());
    assert_eq!((1, 1), controller.cursor().pos());
  });
}

/// Moving cursor up should have no effect, because at the beginning it is
/// in the top left corner of the decision table.
#[test]
fn test_cursor_move__0005() {
  let mut controller = Controller::new(INPUT_0002).with_viewport(CURSOR_MOVE_WIDTH, CURSOR_MOVE_HEIGHT);
  // initial cursor position is (1, 1)
  assert_eq!((1, 1), controller.cursor().pos());
  // moving the cursor up shouldn't generate any change
  assert_eq!(None, controller.cursor_move_up().temporary());
  // cursor position is still (1, 1)
  assert_eq!((1, 1), controller.cursor().pos());
}

/// Moving cursor down should generate change.
#[test]
fn test_cursor_move__0006() {
  let mut controller = Controller::new(INPUT_0002).with_viewport(CURSOR_MOVE_WIDTH, CURSOR_MOVE_HEIGHT);
  // initial cursor position is (1, 1)
  assert_eq!((1, 1), controller.cursor().pos());
  // moving the cursor down should generate change without update
  assert_eq!(Some(false), controller.cursor_move_down().temporary());
  // cursor position is moved below the bottom horizontal line of the first cell,
  // so it is (1, 3) now
  assert_eq!((1, 3), controller.cursor().pos());
}

/// Moving cursor down to the end of the decision table and up
/// to the beginning of the decision table.
#[test]
fn _0007() {
  let mut controller = Controller::new(INPUT_0002).with_viewport(CURSOR_MOVE_WIDTH, CURSOR_MOVE_HEIGHT);
  // initial cursor position is (1, 1)
  assert_eq!((1, 1), controller.cursor().pos());
  // moving the cursor down should generate change without update
  (1..=10).for_each(|_| {
    assert_eq!(Some(false), controller.cursor_move_down().temporary());
  });
  assert_eq!((1, 15), controller.cursor().pos());
  // when the bottom is reached, no more cursor movements are expected
  (1..=100).for_each(|_| {
    assert_eq!(None, controller.cursor_move_down().temporary());
    assert_eq!((1, 15), controller.cursor().pos());
  });
  // moving the cursor up should generate change without update
  (1..=10).for_each(|_| {
    assert_eq!(Some(false), controller.cursor_move_up().temporary());
  });
  assert_eq!((1, 1), controller.cursor().pos());
  // when the top is reached, no more cursor movements are expected
  (1..=100).for_each(|_| {
    assert_eq!(None, controller.cursor_move_up().temporary());
    assert_eq!((1, 1), controller.cursor().pos());
  });
}

/// Moving cursor again down to the end of the decision table and up
/// to the beginning of the decision table, but now the height of the
/// display area is less than the height of the decision table.
#[test]
fn _0008() {
  let mut controller = Controller::new(INPUT_0002).with_viewport(CURSOR_MOVE_WIDTH, 10);
  // initial cursor position is (1, 1)
  assert_eq!((1, 1), controller.cursor().pos());
  // firstly, moving the cursor down should generate change without update
  (1..=5).for_each(|_| {
    assert_eq!(Some(false), controller.cursor_move_down().temporary());
  });
  assert_eq!((1, 7), controller.cursor().pos());
  // secondly, moving the cursor down should generate change with update
  (1..=5).for_each(|_| {
    assert_eq!(Some(true), controller.cursor_move_down().temporary());
  });
  assert_eq!((1, 15), controller.cursor().pos());
  // when the bottom is reached, no more cursor movements are expected
  (1..=100).for_each(|_| {
    assert_eq!(None, controller.cursor_move_down().temporary());
    assert_eq!((1, 15), controller.cursor().pos());
  });
  // now moving up, firstly, moving the cursor up should generate change without update
  (1..=3).for_each(|_| {
    assert_eq!(Some(false), controller.cursor_move_up().temporary());
  });
  assert_eq!((1, 9), controller.cursor().pos());
  // secondly, moving the cursor up should generate change with update
  (1..=7).for_each(|_| {
    assert_eq!(Some(true), controller.cursor_move_up().temporary());
  });
  assert_eq!((1, 1), controller.cursor().pos());
  // when the top is reached, no more cursor movements are expected
  (1..=100).for_each(|_| {
    assert_eq!(None, controller.cursor_move_up().temporary());
    assert_eq!((1, 1), controller.cursor().pos());
  });
}

/// SPECIAL CASE: when moving down 4 times, the cursor stays in the first cell
/// that has `├` on the right side. So moving cursor to the right should stop
/// at the 4th column.
///
/// ```text
/// │   │ Customer  │ Order ╟──────────┬──────────╢ Description │ Reference │
/// │   │   type    │ size  ║ Discount │ Priority ║             │           │
/// │  █├───────────┼───────╫──────────┼──────────╫─────────────┼───────────┤
/// │   │"Business",│       ║          │"Normal", ║             │           │
/// │   │"Private"  │       ║          │ "High",  ║             │           │
/// ```
#[test]
fn _0009() {
  let mut controller = Controller::new(INPUT_0002).with_viewport(CURSOR_MOVE_WIDTH, CURSOR_MOVE_HEIGHT);
  // initial cursor position is (1, 1)
  assert_eq!((1, 1), controller.cursor().pos());
  // move down 4 times
  (1..=4).for_each(|_| {
    assert_eq!(Some(false), controller.cursor_move_down().temporary());
  });
  assert_eq!((1, 6), controller.cursor().pos());
  // move 3 times to the right
  (1..=3).for_each(|_| {
    assert_eq!(Some(false), controller.cursor_move_right().temporary());
  });
  assert_eq!((4, 6), controller.cursor().pos());
  // move several times to the right
  (1..=100).for_each(|_| {
    assert_eq!(None, controller.cursor_move_right().temporary());
  });
  assert_eq!((4, 6), controller.cursor().pos());
}

/// SPECIAL CASE: when moving down 1 row, then moving to the end of the decision table row,
/// then moving down one row, then moving to the left should stop before '╢' character.
///
/// ```text
/// ├───┬───────────┬─┴─────╥─────────────────────╥─────────────┬───────────┐
/// │ U │           │       ║    Order options    ║             │           │
/// │   │ Customer  │ Order ╟──────────┬──────────╢█Description │ Reference │
/// │   │   type    │ size  ║ Discount │ Priority ║             │           │
/// │   ├───────────┼───────╫──────────┼──────────╫─────────────┼───────────┤
/// ```
#[test]
fn _0010() {
  let mut controller = Controller::new(INPUT_0002).with_viewport(CURSOR_MOVE_WIDTH, CURSOR_MOVE_HEIGHT);
  // initial cursor position is (1, 1)
  assert_eq!((1, 1), controller.cursor().pos());
  // move down one row
  assert_eq!(Some(false), controller.cursor_move_down().temporary());
  assert_eq!((1, 3), controller.cursor().pos());
  // move right to the end of the decision table (row)
  assert_eq!(Some(false), controller.cursor_move_row_end().temporary());
  assert_eq!((72, 3), controller.cursor().pos());
  // move down one row
  assert_eq!(Some(false), controller.cursor_move_down().temporary());
  assert_eq!((72, 4), controller.cursor().pos());
  // now moving to the left should generate changes until the '╢' is encountered
  (1..=25).for_each(|_| {
    assert_eq!((true, false, false, false), controller.cursor_move_left().get());
  });
  assert_eq!((47, 4), controller.cursor().pos());
  // moving several times to the left should have no effect
  (1..=100).for_each(|_| {
    assert_eq!((false, false, false, false), controller.cursor_move_left().get());
  });
  assert_eq!((47, 4), controller.cursor().pos());
}

/// Moving to the cell start, firstly when the cursor is already there,
/// then moving to the right and again to the cell start.
///
/// ```text
/// ┌─────────────────┐
/// │█ Order options  │
/// ├───┬───────────┬─┴─────╥─────────────────────╥─────────────┬───────────┐
/// │ U │           │       ║    Order options    ║             │           │
/// ```
#[test]
fn _0011() {
  let mut controller = Controller::new(INPUT_0002).with_viewport(CURSOR_MOVE_WIDTH, CURSOR_MOVE_HEIGHT);
  // initial cursor position is (1, 1)
  assert_eq!((1, 1), controller.cursor().pos());
  // moving the cursor to cell start shouldn't generate any change
  assert_eq!(None, controller.cursor_move_cell_start().temporary());
  // cursor position is still (1, 1)
  assert_eq!((1, 1), controller.cursor().pos());
  // move several times to the right
  (1..=5).for_each(|_| {
    assert_eq!(Some(false), controller.cursor_move_right().temporary());
  });
  assert_eq!((6, 1), controller.cursor().pos());
  // now moving the cursor to cell start should generate a change without update
  assert_eq!(Some(false), controller.cursor_move_cell_start().temporary());
  assert_eq!((1, 1), controller.cursor().pos());
}

/// Moving to the cell end, firstly when the cursor is already there,
/// then moving to the left and again to the cell end.
///
/// ```text
/// ┌─────────────────┐
/// │  Order options █│
/// ├───┬───────────┬─┴─────╥─────────────────────╥─────────────┬───────────┐
/// │ U │           │       ║    Order options    ║             │           │
/// ```
#[test]
fn _0012() {
  let mut controller = Controller::new(INPUT_0002).with_viewport(CURSOR_MOVE_WIDTH, CURSOR_MOVE_HEIGHT);
  // initial cursor position is (1, 1)
  assert_eq!((1, 1), controller.cursor().pos());
  // moving the cursor to cell end should generate a change without update
  assert_eq!(Some(false), controller.cursor_move_cell_end().temporary());
  // moving the cursor again to the cell end should not generate any change
  assert_eq!(None, controller.cursor_move_cell_end().temporary());
  assert_eq!((18, 1), controller.cursor().pos());
  // move several times to the left
  (1..=5).for_each(|_| {
    assert_eq!((true, false, false, false), controller.cursor_move_left().get());
  });
  assert_eq!((13, 1), controller.cursor().pos());
  // now moving the cursor again to cell end should generate a change without update
  assert_eq!(Some(false), controller.cursor_move_cell_end().temporary());
  assert_eq!((18, 1), controller.cursor().pos());
}

/// Moving to the cell end and then to the cell start when the viewing
/// area is narrower than the cell itself
///
/// ```text
/// ┌─────────────────┐
/// │█ Order options █│
/// ├───┬───────────┬─┴─────╥─────────────────────╥─────────────┬───────────┐
/// │ U │           │       ║    Order options    ║             │           │
/// ```
#[test]
fn _0013() {
  let mut controller = Controller::new(INPUT_0002).with_viewport(10, CURSOR_MOVE_HEIGHT);
  // initial cursor position is (1, 1)
  assert_eq!((1, 1), controller.cursor().pos());
  // moving the cursor to cell end should generate a change with update
  assert_eq!(Some(true), controller.cursor_move_cell_end().temporary());
  assert_eq!((18, 1), controller.cursor().pos());
  // moving the cursor to the cell start should generate a change with update
  assert_eq!(Some(true), controller.cursor_move_cell_start().temporary());
  assert_eq!((1, 1), controller.cursor().pos());
}

/// Moving to the row end.
///
/// ```text
/// ┌─────────────────┐
/// │  Order options  │
/// ├───┬───────────┬─┴─────╥─────────────────────╥─────────────┬───────────┐
/// │ U │           │       ║    Order options    ║             │          █│
/// │   │ Customer  │ Order ╟──────────┬──────────╢ Description │ Reference │
/// ```
#[test]
fn _0014() {
  let mut controller = Controller::new(INPUT_0002).with_viewport(CURSOR_MOVE_WIDTH, CURSOR_MOVE_HEIGHT);
  // initial cursor position is (1, 1)
  assert_eq!((1, 1), controller.cursor().pos());
  // move ones down
  assert_eq!(Some(false), controller.cursor_move_down().temporary());
  assert_eq!((1, 3), controller.cursor().pos());
  // move to the end of the row, change without update
  assert_eq!(Some(false), controller.cursor_move_row_end().temporary());
  assert_eq!((72, 3), controller.cursor().pos());
  // move again to row end should not generate any change
  assert_eq!(None, controller.cursor_move_row_end().temporary());
  assert_eq!((72, 3), controller.cursor().pos());
}

/// Moving to the row start.
///
/// ```text
/// ┌─────────────────┐
/// │  Order options  │
/// ├───┬───────────┬─┴─────╥─────────────────────╥─────────────┬───────────┐
/// │█U │           │       ║    Order options    ║             │           │
/// │   │ Customer  │ Order ╟──────────┬──────────╢ Description │ Reference │
/// ```
#[test]
fn _0015() {
  let mut controller = Controller::new(INPUT_0002).with_viewport(CURSOR_MOVE_WIDTH, CURSOR_MOVE_HEIGHT);
  // initial cursor position is (1, 1)
  assert_eq!((1, 1), controller.cursor().pos());
  // move ones down
  assert_eq!(Some(false), controller.cursor_move_down().temporary());
  assert_eq!((1, 3), controller.cursor().pos());
  // move to the end of the row, change without update
  assert_eq!(Some(false), controller.cursor_move_row_end().temporary());
  assert_eq!((72, 3), controller.cursor().pos());
  // move to row start should generate a change without update
  assert_eq!(Some(false), controller.cursor_move_row_start().temporary());
  assert_eq!((1, 3), controller.cursor().pos());
  // move to row start again should not generate any change
  assert_eq!(None, controller.cursor_move_row_start().temporary());
  assert_eq!((1, 3), controller.cursor().pos());
}

/// Moving to the row end and row start when the viewing area is narrower
/// than the decision table width. This test uses all cursor shapes.
///
/// ```text
/// ┌─────────────────┐
/// │  Order options  │
/// ├───┬───────────┬─┴─────╥─────────────────────╥─────────────┬───────────┐
/// │█U │           │       ║    Order options    ║             │          █│
/// │   │ Customer  │ Order ╟──────────┬──────────╢ Description │ Reference │
/// ```
#[test]
fn _0016() {
  let mut controller = Controller::new(INPUT_0002).with_viewport(30, CURSOR_MOVE_HEIGHT);
  // initial cursor position is (1, 1)
  assert_eq!((1, 1), controller.cursor().pos());
  // move one down
  assert_eq!(Some(false), controller.cursor_move_down().temporary());
  assert_eq!((1, 3), controller.cursor().pos());

  // CARET
  assert!(controller.cursor().is_caret());
  // move to the end of the row, change with update
  assert_eq!(Some(true), controller.cursor_move_row_end().temporary());
  assert_eq!((72, 3), controller.cursor().pos());
  // move to row start should generate a change with update
  assert_eq!(Some(true), controller.cursor_move_row_start().temporary());
  assert_eq!((1, 3), controller.cursor().pos());

  // BLOCK
  controller.cursor_toggle_caret_block();
  assert!(controller.cursor().is_block());
  // move to the end of the row, change with update
  assert_eq!(Some(true), controller.cursor_move_row_end().temporary());
  assert_eq!((71, 3), controller.cursor().pos());
  // move to row start should generate a change with update
  assert_eq!(Some(true), controller.cursor_move_row_start().temporary());
  assert_eq!((1, 3), controller.cursor().pos());

  // UNDERSCORE
  controller.cursor_toggle_caret_under_score();
  assert!(controller.cursor().is_under_score());
  // move to the end of the row, change with update
  assert_eq!(Some(true), controller.cursor_move_row_end().temporary());
  assert_eq!((71, 3), controller.cursor().pos());
  // move to row start should generate a change with update
  assert_eq!(Some(true), controller.cursor_move_row_start().temporary());
  assert_eq!((1, 3), controller.cursor().pos());
}

/// Moving to the next cell.
///
/// ```text
/// ┌─────────────────┐
/// │  Order options  │
/// ├───┬───────────┬─┴─────╥─────────────────────╥─────────────┬───────────┐
/// │ U │█          │█      ║█   Order options    ║█            │█         █│
/// │   │ Customer  │ Order ╟──────────┬──────────╢ Description │ Reference │
/// ```
#[test]
fn _0017() {
  let mut controller = Controller::new(INPUT_0002).with_viewport(CURSOR_MOVE_WIDTH, CURSOR_MOVE_HEIGHT);
  // initial cursor position is (1, 1)
  assert_eq!((1, 1), controller.cursor().pos());
  // move one down
  assert_eq!(Some(false), controller.cursor_move_down().temporary());
  assert_eq!((1, 3), controller.cursor().pos());
  // next cell
  assert_eq!(Some(false), controller.cursor_move_cell_next().temporary());
  assert_eq!((5, 3), controller.cursor().pos());
  // next cell
  assert_eq!(Some(false), controller.cursor_move_cell_next().temporary());
  assert_eq!((17, 3), controller.cursor().pos());
  // next cell
  assert_eq!(Some(false), controller.cursor_move_cell_next().temporary());
  assert_eq!((25, 3), controller.cursor().pos());
  // next cell
  assert_eq!(Some(false), controller.cursor_move_cell_next().temporary());
  assert_eq!((47, 3), controller.cursor().pos());
  // next cell
  assert_eq!(Some(false), controller.cursor_move_cell_next().temporary());
  assert_eq!((61, 3), controller.cursor().pos());
  // next cell
  assert_eq!(Some(false), controller.cursor_move_cell_next().temporary());
  assert_eq!((72, 3), controller.cursor().pos());
  // stay at the end
  assert_eq!(None, controller.cursor_move_cell_next().temporary());
  assert_eq!((72, 3), controller.cursor().pos());
}

/// Moving to the previous cell.
///
/// ```text
/// ┌─────────────────┐
/// │  Order options  │
/// ├───┬───────────┬─┴─────╥─────────────────────╥─────────────┬───────────┐
/// │█U█│          █│      █║    Order options   █║            █│           │
/// │   │ Customer  │ Order ╟──────────┬──────────╢ Description │ Reference │
/// ```
#[test]
fn _0018() {
  let mut controller = Controller::new(INPUT_0002).with_viewport(CURSOR_MOVE_WIDTH, CURSOR_MOVE_HEIGHT);
  // initial cursor position is (1, 1)
  assert_eq!((1, 1), controller.cursor().pos());
  // move one down
  assert_eq!(Some(false), controller.cursor_move_down().temporary());
  assert_eq!((1, 3), controller.cursor().pos());
  // move to the row end
  assert_eq!(Some(false), controller.cursor_move_row_end().temporary());
  assert_eq!((72, 3), controller.cursor().pos());
  // previous cell
  assert_eq!(Some(false), controller.cursor_move_cell_prev().temporary());
  assert_eq!((60, 3), controller.cursor().pos());
  // previous cell
  assert_eq!(Some(false), controller.cursor_move_cell_prev().temporary());
  assert_eq!((46, 3), controller.cursor().pos());
  // previous cell
  assert_eq!(Some(false), controller.cursor_move_cell_prev().temporary());
  assert_eq!((24, 3), controller.cursor().pos());
  // previous cell
  assert_eq!(Some(false), controller.cursor_move_cell_prev().temporary());
  assert_eq!((16, 3), controller.cursor().pos());
  // previous cell
  assert_eq!(Some(false), controller.cursor_move_cell_prev().temporary());
  assert_eq!((4, 3), controller.cursor().pos());
  // previous cell
  assert_eq!(Some(false), controller.cursor_move_cell_prev().temporary());
  assert_eq!((1, 3), controller.cursor().pos());
  // stay at the beginning
  assert_eq!(None, controller.cursor_move_cell_prev().temporary());
  assert_eq!((1, 3), controller.cursor().pos());
}

/// Moving to the next cell and back to the previous cell when the display
/// area is narrower than the decision table width.
#[test]
fn _0019() {
  let mut controller = Controller::new(INPUT_0002).with_viewport(40, CURSOR_MOVE_HEIGHT);
  // initial cursor position is (1, 1)
  assert_eq!((1, 1), controller.cursor().pos());
  // move one down
  assert_eq!(Some(false), controller.cursor_move_down().temporary());
  assert_eq!((1, 3), controller.cursor().pos());
  // next cell
  assert_eq!(Some(false), controller.cursor_move_cell_next().temporary());
  assert_eq!((5, 3), controller.cursor().pos());
  // next cell
  assert_eq!(Some(false), controller.cursor_move_cell_next().temporary());
  assert_eq!((17, 3), controller.cursor().pos());
  // next cell
  assert_eq!(Some(false), controller.cursor_move_cell_next().temporary());
  assert_eq!((25, 3), controller.cursor().pos());
  // next cell
  assert_eq!(Some(true), controller.cursor_move_cell_next().temporary());
  assert_eq!((47, 3), controller.cursor().pos());
  // next cell
  assert_eq!(Some(true), controller.cursor_move_cell_next().temporary());
  assert_eq!((61, 3), controller.cursor().pos());
  // next cell
  assert_eq!(Some(true), controller.cursor_move_cell_next().temporary());
  assert_eq!((72, 3), controller.cursor().pos());
  // stay at the end
  assert_eq!(None, controller.cursor_move_cell_next().temporary());
  assert_eq!((72, 3), controller.cursor().pos());
  // previous cell
  assert_eq!(Some(false), controller.cursor_move_cell_prev().temporary());
  assert_eq!((60, 3), controller.cursor().pos());
  // previous cell
  assert_eq!(Some(false), controller.cursor_move_cell_prev().temporary());
  assert_eq!((46, 3), controller.cursor().pos());
  // previous cell
  assert_eq!(Some(true), controller.cursor_move_cell_prev().temporary());
  assert_eq!((24, 3), controller.cursor().pos());
  // previous cell
  assert_eq!(Some(true), controller.cursor_move_cell_prev().temporary());
  assert_eq!((16, 3), controller.cursor().pos());
  // previous cell
  assert_eq!(Some(true), controller.cursor_move_cell_prev().temporary());
  assert_eq!((4, 3), controller.cursor().pos());
  // previous cell
  assert_eq!(Some(true), controller.cursor_move_cell_prev().temporary());
  assert_eq!((1, 3), controller.cursor().pos());
  // stay at the beginning
  assert_eq!(None, controller.cursor_move_cell_prev().temporary());
  assert_eq!((1, 3), controller.cursor().pos());
}

/// SPECIAL CASE: jumping to the end of the row and back to the beginning
/// of the row should work, even if there is a horizontal line on the way.
///
/// ```text
/// ├───┬───────────┬─┴─────╥─────────────────────╥─────────────┬───────────┐
/// │ U │           │       ║    Order options    ║             │           │
/// │█  │ Customer  │ Order ╟──────────┬──────────╢ Description │ Reference█│
/// │   │   type    │ size  ║ Discount │ Priority ║             │           │
/// │   ├───────────┼───────╫──────────┼──────────╫─────────────┼───────────┤
/// ```
#[test]
fn _0020() {
  let mut controller = Controller::new(INPUT_0002).with_viewport(CURSOR_MOVE_WIDTH, CURSOR_MOVE_HEIGHT);
  // initial cursor position is (1, 1)
  assert_eq!((1, 1), controller.cursor().pos());
  // move two down
  assert_eq!(Some(false), controller.cursor_move_down().temporary());
  assert_eq!(Some(false), controller.cursor_move_down().temporary());
  assert_eq!((1, 4), controller.cursor().pos());
  // move to the row end
  assert_eq!(Some(false), controller.cursor_move_row_end().temporary());
  assert_eq!((72, 4), controller.cursor().pos());
  // stay at the end
  assert_eq!(None, controller.cursor_move_row_end().temporary());
  assert_eq!((72, 4), controller.cursor().pos());
  // move to the row start
  assert_eq!(Some(false), controller.cursor_move_row_start().temporary());
  assert_eq!((1, 4), controller.cursor().pos());
  // stay at the beginning
  assert_eq!(None, controller.cursor_move_row_start().temporary());
  assert_eq!((1, 4), controller.cursor().pos());
}

/// SPECIAL CASE: jumping to the end of the row and back to the beginning
/// of the row should work, but inside the column when horizontal line is to the end.
///
/// ```text
/// │   │ Customer  │ Order ╟──────────┬──────────╢ Description │ Reference │
/// │   │   type    │ size  ║ Discount │ Priority ║             │           │
/// │█ █├───────────┼───────╫──────────┼──────────╫─────────────┼───────────┤
/// │   │"Business",│       ║          │"Normal", ║             │           │
/// │   │"Private"  │       ║          │ "High",  ║             │           │
/// ```
#[test]
fn _0021() {
  let mut controller = Controller::new(INPUT_0002).with_viewport(CURSOR_MOVE_WIDTH, CURSOR_MOVE_HEIGHT);
  // initial cursor position is (1, 1)
  assert_eq!((1, 1), controller.cursor().pos());
  // move two down
  (1..=4).for_each(|_| {
    assert_eq!(Some(false), controller.cursor_move_down().temporary());
  });
  assert_eq!((1, 6), controller.cursor().pos());
  // move to the row end
  assert_eq!(Some(false), controller.cursor_move_row_end().temporary());
  assert_eq!((4, 6), controller.cursor().pos());
  // stay at the end of cell
  assert_eq!(None, controller.cursor_move_row_end().temporary());
  assert_eq!((4, 6), controller.cursor().pos());
  // move to the row start
  assert_eq!(Some(false), controller.cursor_move_row_start().temporary());
  assert_eq!((1, 6), controller.cursor().pos());
  // stay at the beginning of the cell
  assert_eq!(None, controller.cursor_move_row_start().temporary());
  assert_eq!((1, 6), controller.cursor().pos());
}

/// Moving around `┬` should be possible, when the cursor is a caret.
///
/// ```text
/// ├───┬───────────┬─┴─────╥─────────────────────╥─────────────┬───────────┐
/// │ U │           │       ║    Order█o█ptions   ║             │           │
/// │   │ Customer  │ Order ╟──────────┬──────────╢ Description │ Reference │
/// │   │   type    │ size  ║ Discount█│█Priority ║             │           │
/// │   ├───────────┼───────╫──────────┼──────────╫─────────────┼───────────┤
/// ```
#[test]
fn _0022() {
  let mut controller = Controller::new(INPUT_0002).with_viewport(CURSOR_MOVE_WIDTH, CURSOR_MOVE_HEIGHT);
  // initial cursor position is (1, 1)
  assert_eq!((1, 1), controller.cursor().pos());
  // make sure the cursor is a caret
  assert!(controller.cursor().is_caret());
  // move to the starting position
  assert_eq!(Some(false), controller.cursor_move_down().temporary());
  (1..=3).for_each(|_| {
    assert_eq!(Some(false), controller.cursor_move_cell_next().temporary());
  });
  assert_eq!((25, 3), controller.cursor().pos());
  (1..=10).for_each(|_| {
    assert_eq!(Some(false), controller.cursor_move_right().temporary());
  });
  assert_eq!((35, 3), controller.cursor().pos());
  // walk around the '┬' character
  assert_eq!(Some(false), controller.cursor_move_down().temporary());
  assert_eq!((35, 5), controller.cursor().pos());
  assert_eq!(Some(false), controller.cursor_move_right().temporary());
  assert_eq!((36, 5), controller.cursor().pos());
  assert_eq!(Some(false), controller.cursor_move_up().temporary());
  assert_eq!((36, 3), controller.cursor().pos());
}

/// Moving around `┬` should bot be possible, when the cursor is not a caret.
///
/// ```text
/// ├───┬───────────┬─┴─────╥─────────────────────╥─────────────┬───────────┐
/// │ U │           │       ║    Order █ptions    ║             │           │
/// │   │ Customer  │ Order ╟──────────┬──────────╢ Description │ Reference │
/// │   │   type    │ size  ║ Discount │ Priority ║             │           │
/// │   ├───────────┼───────╫──────────┼──────────╫─────────────┼───────────┤
/// ```
#[test]
fn _0023() {
  let mut controller = Controller::new(INPUT_0002).with_viewport(CURSOR_MOVE_WIDTH, CURSOR_MOVE_HEIGHT);
  // initial cursor position is (1, 1)
  assert_eq!((1, 1), controller.cursor().pos());
  // make sure the cursor is a block
  controller.cursor_toggle_caret_block();
  assert!(controller.cursor().is_block());
  // move to the starting position
  assert_eq!(Some(false), controller.cursor_move_down().temporary());
  (1..=3).for_each(|_| {
    assert_eq!(Some(false), controller.cursor_move_cell_next().temporary());
  });
  assert_eq!((25, 3), controller.cursor().pos());
  (1..=10).for_each(|_| {
    assert_eq!(Some(false), controller.cursor_move_right().temporary());
  });
  // now the block cursor should stay over the 'o' letter
  assert_eq!((35, 3), controller.cursor().pos());
  assert_eq!(Some('o'), controller.cursor_char());
  // moving down over the '┬' character should not be possible
  assert_eq!(None, controller.cursor_move_down().temporary());
  assert_eq!((35, 3), controller.cursor().pos());
  // change to underscore cursor
  controller.cursor_toggle_caret_under_score();
  assert!(controller.cursor().is_under_score());
  // moving down over the '┬' character should not be possible
  assert_eq!(None, controller.cursor_move_down().temporary());
  assert_eq!((35, 3), controller.cursor().pos());
}

/// Cursor should jump over vertical lines when moved right and left,
/// this test is for `caret` cursor.
#[test]
fn _0024() {
  let mut controller = Controller::new(INPUT_0002).with_viewport(CURSOR_MOVE_WIDTH, CURSOR_MOVE_HEIGHT);
  // initial cursor position is (1, 1)
  assert_eq!((1, 1), controller.cursor().pos());
  assert!(controller.cursor().is_caret());
  // move one down
  assert_eq!(Some(false), controller.cursor_move_down().temporary());
  assert_eq!((1, 3), controller.cursor().pos());
  (1..=71).for_each(|_| {
    assert_eq!(Some(false), controller.cursor_move_right().temporary());
  });
  assert_eq!((72, 3), controller.cursor().pos());
  (1..=100).for_each(|_| {
    assert_eq!(None, controller.cursor_move_right().temporary());
    assert_eq!((72, 3), controller.cursor().pos());
  });
  (1..=71).for_each(|_| {
    assert_eq!((true, false, false, false), controller.cursor_move_left().get());
  });
  assert_eq!((1, 3), controller.cursor().pos());
  (1..=100).for_each(|_| {
    assert_eq!((false, false, false, false), controller.cursor_move_left().get());
    assert_eq!((1, 3), controller.cursor().pos());
  });
}

/// Cursor should jump over vertical lines when moved right and left,
/// this test is for `block` cursor.
#[test]
fn _0025() {
  let mut controller = Controller::new(INPUT_0002).with_viewport(CURSOR_MOVE_WIDTH, CURSOR_MOVE_HEIGHT);
  // initial cursor position is (1, 1)
  assert_eq!((1, 1), controller.cursor().pos());
  controller.cursor_toggle_caret_block();
  assert!(controller.cursor().is_block());
  // move one down
  assert_eq!(Some(false), controller.cursor_move_down().temporary());
  assert_eq!((1, 3), controller.cursor().pos());
  (1..=65).for_each(|_| {
    assert_eq!(Some(false), controller.cursor_move_right().temporary());
  });
  assert_eq!((71, 3), controller.cursor().pos());
  (1..=100).for_each(|_| {
    assert_eq!(None, controller.cursor_move_right().temporary());
    assert_eq!((71, 3), controller.cursor().pos());
  });
  (1..=65).for_each(|_| {
    assert_eq!((true, false, false, false), controller.cursor_move_left().get());
  });
  assert_eq!((1, 3), controller.cursor().pos());
  (1..=100).for_each(|_| {
    assert_eq!((false, false, false, false), controller.cursor_move_left().get());
    assert_eq!((1, 3), controller.cursor().pos());
  });
}

/// Cursor should jump over vertical lines when moved right and left,
/// this test is for `underscore` cursor.
#[test]
fn _0026() {
  let mut controller = Controller::new(INPUT_0002).with_viewport(CURSOR_MOVE_WIDTH, CURSOR_MOVE_HEIGHT);
  // initial cursor position is (1, 1)
  assert_eq!((1, 1), controller.cursor().pos());
  controller.cursor_toggle_caret_under_score();
  assert!(controller.cursor().is_under_score());
  // move one down
  assert_eq!(Some(false), controller.cursor_move_down().temporary());
  assert_eq!((1, 3), controller.cursor().pos());
  (1..=65).for_each(|_| {
    assert_eq!(Some(false), controller.cursor_move_right().temporary());
  });
  assert_eq!((71, 3), controller.cursor().pos());
  (1..=100).for_each(|_| {
    assert_eq!(None, controller.cursor_move_right().temporary());
    assert_eq!((71, 3), controller.cursor().pos());
  });
  (1..=65).for_each(|_| {
    assert_eq!((true, false, false, false), controller.cursor_move_left().get());
  });
  assert_eq!((1, 3), controller.cursor().pos());
  (1..=100).for_each(|_| {
    assert_eq!((false, false, false, false), controller.cursor_move_left().get());
    assert_eq!((1, 3), controller.cursor().pos());
  });
}

/// Cursor is placed right before the vertical line.
/// Moving to the next cell should work.
#[test]

fn _0027() {
  let mut controller = Controller::new(INPUT_0002).with_viewport(CURSOR_MOVE_WIDTH, CURSOR_MOVE_HEIGHT);
  assert_eq!((1, 1), controller.cursor().pos());
  actions(&mut controller, &[MoveDown(1), MoveRight(3)]);
  assert_eq!((4, 3), controller.cursor().pos());
  actions(&mut controller, &[CellNext(1)]);
  assert_eq!((5, 3), controller.cursor().pos());
}

/// Cursor is placed right after the vertical line.
/// Moving to the previous cell should work.
#[test]
fn _0028() {
  let mut controller = Controller::new(INPUT_0002).with_viewport(CURSOR_MOVE_WIDTH, CURSOR_MOVE_HEIGHT);
  actions(
    &mut controller,
    &[AssertPos(1, 1), MoveDown(1), MoveRight(4), AssertPos(5, 3), CellPrev(1), AssertPos(4, 3)],
  );
}

/// Moving to the end of the cell and returning to the cell start should work.
#[test]
fn _0029() {
  let mut controller = Controller::new(INPUT_0002).with_viewport(CURSOR_MOVE_WIDTH, CURSOR_MOVE_HEIGHT);
  actions(&mut controller, &[AssertPos(1, 1), CellEnd(1), AssertPos(18, 1), CellStart(1), AssertPos(1, 1)]);
}

/// Moving to the end of the row and returning to the row start should work.
#[test]
fn _0030() {
  let mut controller = Controller::new(INPUT_0002).with_viewport(CURSOR_MOVE_WIDTH, CURSOR_MOVE_HEIGHT);
  actions(&mut controller, &[MoveDown(1), AssertPos(1, 3), RowEnd(1), AssertPos(72, 3), RowStart(1), AssertPos(1, 3)]);
}




const CURSOR_SHAPE_WIDTH: usize = 800;
const CURSOR_SHAPE_HEIGHT: usize = 800;

#[test]
fn cursor_mode_should_work() {
  let mut controller = Controller::new(INPUT_0002).with_viewport(CURSOR_SHAPE_WIDTH, CURSOR_SHAPE_HEIGHT);
  // initial cursor should be caret shape and indent mode
  assert!(controller.cursor().is_caret());
  assert!(controller.cursor().insert_mode());
  assert!(!controller.cursor().override_mode());
  // change the cursor to block, should switch to override mode
  controller.cursor_toggle_caret_block();
  assert!(controller.cursor().is_block());
  assert!(controller.cursor().override_mode());
  assert!(!controller.cursor().insert_mode());
  // change back to caret
  controller.cursor_toggle_caret_block();
  assert!(controller.cursor().is_caret());
  // change to underscore
  controller.cursor_toggle_caret_under_score();
  assert!(controller.cursor().is_under_score());
  assert!(controller.cursor().override_mode());
  assert!(!controller.cursor().insert_mode());
}

#[test]
fn cursor_toggle_should_work() {
  let mut controller = Controller::new(INPUT_0002).with_viewport(CURSOR_SHAPE_WIDTH, CURSOR_SHAPE_HEIGHT);
  assert!(controller.cursor().is_caret());
  controller.cursor_toggle_caret_block();
  assert!(controller.cursor().is_block());
  controller.cursor_toggle_caret_block();
  assert!(controller.cursor().is_caret());
  controller.cursor_toggle_caret_under_score();
  assert!(controller.cursor().is_under_score());
  controller.cursor_toggle_caret_under_score();
  assert!(controller.cursor().is_caret());
  controller.cursor_toggle_caret_block();
  assert!(controller.cursor().is_block());
  controller.cursor_toggle_caret_under_score();
  assert!(controller.cursor().is_under_score());
  controller.cursor_toggle_caret_under_score();
  assert!(controller.cursor().is_caret());
  controller.cursor_toggle_caret_under_score();
  assert!(controller.cursor().is_under_score());
  controller.cursor_toggle_caret_block();
  assert!(controller.cursor().is_block());
  controller.cursor_toggle_caret_block();
  assert!(controller.cursor().is_caret());
}

#[test]
fn cursor_toggle_caret_block_should_move_left_when_needed() {
  let mut controller = Controller::new(INPUT_0002).with_viewport(CURSOR_SHAPE_WIDTH, CURSOR_SHAPE_HEIGHT);
  assert!(controller.cursor().is_caret());
  actions(&mut controller, &[CellEnd(1), ToggleCaretBlock, AssertPos(17, 1)]);
}

#[test]
fn cursor_toggle_caret_under_score_should_move_left_when_needed() {
  let mut controller = Controller::new(INPUT_0002).with_viewport(CURSOR_SHAPE_WIDTH, CURSOR_SHAPE_HEIGHT);
  assert!(controller.cursor().is_caret());
  actions(&mut controller, &[CellEnd(1), ToggleCaretUnderScore, AssertPos(17, 1)]);
}



const DELETE_BEFORE_CURSOR_WIDTH: usize = 800;
const DELETE_BEFORE_CURSOR_HEIGHT: usize = 800;

/// At the beginning, when the cursor is not moved, it is placed in the top-left corner
/// just after vertical line. Deleting a character before cursor should have no effect
/// in this case, because the lines are not removable.
#[test]
fn test_delete_before_cursor__0001() {
  let expected = r#"
    ┌─────────────────┐
    │  Order options  │
    ├───┬───────────┬─┴─────╥─────────────────────╥─────────────┬───────────┐
    │ U │           │       ║    Order options    ║             │           │
    │   │ Customer  │ Order ╟──────────┬──────────╢ Description │ Reference │
    │   │   type    │ size  ║ Discount │ Priority ║             │           │
    │   ├───────────┼───────╫──────────┼──────────╫─────────────┼───────────┤
    │   │"Business",│       ║          │"Normal", ║             │           │
    │   │"Private"  │       ║          │ "High",  ║             │           │
    │   │           │       ║          │ "Low"    ║             │           │
    ╞═══╪═══════════╪═══════╬══════════╪══════════╬═════════════╪═══════════╡
    │ 1 │"Business" │  <10  ║   0.10   │ "Normal" ║ Small order │   Ref 1   │
    ├───┼───────────┼───────╫──────────┼──────────╫─────────────┼───────────┤
    │ 2 │"Business" │ >=10  ║   0.15   │  "High"  ║ Large order │   Ref 2   │
    ├───┼───────────┼───────╫──────────┼──────────╫─────────────┼───────────┤
    │ 3 │"Private"  │   -   ║   0.05   │  "Low"   ║ All orders  │   Ref 3   │
    └───┴───────────┴───────╨──────────┴──────────╨─────────────┴───────────┘
  "#;
  let mut controller = Controller::new(INPUT_0002).with_viewport(DELETE_BEFORE_CURSOR_WIDTH, DELETE_BEFORE_CURSOR_HEIGHT);
  actions(&mut controller, &[DeleteBefore(1)]);
  assert_eq!(expected, text(&controller));
}

#[test]
fn test_delete_before_cursor__0002() {
  let expected = r#"
    ┌────────────────┐
    │ Order options  │
    ├───┬───────────┬┴──────╥─────────────────────╥─────────────┬───────────┐
    │ U │           │       ║    Order options    ║             │           │
    │   │ Customer  │ Order ╟──────────┬──────────╢ Description │ Reference │
    │   │   type    │ size  ║ Discount │ Priority ║             │           │
    │   ├───────────┼───────╫──────────┼──────────╫─────────────┼───────────┤
    │   │"Business",│       ║          │"Normal", ║             │           │
    │   │"Private"  │       ║          │ "High",  ║             │           │
    │   │           │       ║          │ "Low"    ║             │           │
    ╞═══╪═══════════╪═══════╬══════════╪══════════╬═════════════╪═══════════╡
    │ 1 │"Business" │  <10  ║   0.10   │ "Normal" ║ Small order │   Ref 1   │
    ├───┼───────────┼───────╫──────────┼──────────╫─────────────┼───────────┤
    │ 2 │"Business" │ >=10  ║   0.15   │  "High"  ║ Large order │   Ref 2   │
    ├───┼───────────┼───────╫──────────┼──────────╫─────────────┼───────────┤
    │ 3 │"Private"  │   -   ║   0.05   │  "Low"   ║ All orders  │   Ref 3   │
    └───┴───────────┴───────╨──────────┴──────────╨─────────────┴───────────┘
  "#;
  let mut controller = Controller::new(INPUT_0002).with_viewport(DELETE_BEFORE_CURSOR_WIDTH, DELETE_BEFORE_CURSOR_HEIGHT);
  actions(&mut controller, &[MoveRight(1), DeleteBefore(1)]);
  assert_eq!(expected, text(&controller));
}

#[test]
fn test_delete_before_cursor__0003() {
  let expected = r#"
    ┌───┬───────────┬──────╥─────────────────────╥─────────────┬───────────┐
    │ U │           │      ║    Order options    ║             │           │
    │   │ Customer  │ Order╟──────────┬──────────╢ Description │ Reference │
    │   │   type    │ size ║ Discount │ Priority ║             │           │
    │   ├───────────┼──────╫──────────┼──────────╫─────────────┼───────────┤
    │   │"Business",│      ║          │"Normal", ║             │           │
    │   │"Private"  │      ║          │ "High",  ║             │           │
    │   │           │      ║          │ "Low"    ║             │           │
    ╞═══╪═══════════╪══════╬══════════╪══════════╬═════════════╪═══════════╡
    │ 1 │"Business" │  <10 ║   0.10   │ "Normal" ║ Small order │   Ref 1   │
    ├───┼───────────┼──────╫──────────┼──────────╫─────────────┼───────────┤
    │ 2 │"Business" │ >=10 ║   0.15   │  "High"  ║ Large order │   Ref 2   │
    ├───┼───────────┼──────╫──────────┼──────────╫─────────────┼───────────┤
    │ 3 │"Private"  │   -  ║   0.05   │  "Low"   ║ All orders  │   Ref 3   │
    └───┴───────────┴──────╨──────────┴──────────╨─────────────┴───────────┘
  "#;
  let mut controller = Controller::new(INPUT_0004).with_viewport(DELETE_BEFORE_CURSOR_WIDTH, DELETE_BEFORE_CURSOR_HEIGHT);
  actions(&mut controller, &[MoveRight(20), DeleteBefore(2)]);
  assert_eq!(expected, text(&controller));
}

#[test]
fn test_delete_before_cursor__0004() {
  let expected = r#"
    ┌───────────────────────────────────────────────────────────────────────┐
    │XXXXXXXXXXXXXXXXXXXXXXXXXXXXXXXXXXXXXXXXXXXXXXXXXXXXXXXX  Order options│
    ├───┬───────────┬───────╥─────────────────────╥─────────────┬───────────┤
    │ U │           │       ║    Order options    ║             │           │
    │   │ Customer  │ Order ╟──────────┬──────────╢ Description │ Reference │
    │   │   type    │ size  ║ Discount │ Priority ║             │           │
    │   ├───────────┼───────╫──────────┼──────────╫─────────────┼───────────┤
    │   │"Business",│       ║          │"Normal", ║             │           │
    │   │"Private"  │       ║          │ "High",  ║             │           │
    │   │           │       ║          │ "Low"    ║             │           │
    ╞═══╪═══════════╪═══════╬══════════╪══════════╬═════════════╪═══════════╡
    │ 1 │"Business" │  <10  ║   0.10   │ "Normal" ║ Small order │   Ref 1   │
    ├───┼───────────┼───────╫──────────┼──────────╫─────────────┼───────────┤
    │ 2 │"Business" │ >=10  ║   0.15   │  "High"  ║ Large order │   Ref 2   │
    ├───┼───────────┼───────╫──────────┼──────────╫─────────────┼───────────┤
    │ 3 │"Private"  │   -   ║   0.05   │  "Low"   ║ All orders  │   Ref 3   │
    └───┴───────────┴───────╨──────────┴──────────╨─────────────┴───────────┘
  "#;
  let mut controller = Controller::new(INPUT_0002).with_viewport(DELETE_BEFORE_CURSOR_WIDTH, DELETE_BEFORE_CURSOR_HEIGHT);
  actions(&mut controller, &[Insert('X', 57), DeleteBefore(1)]);
  assert_eq!(expected, text(&controller));
}

#[test]
/// A lone space in the information item cell is its only interior glyph, so
/// typing there widens the column.
fn test_delete_before_cursor__0005() {
  let expected = r#"
    ┌──┐
    │Y │
    ├──┴┬───────────┬───────╥─────────────────────╥─────────────┬──────────┐
    │ U │           │       ║    Order options    ║             │          │
    │   │ Customer  │ Order ╟──────────┬──────────╢ Description │ Reference│
    │   │   type    │ size  ║ Discount │ Priority ║             │          │
    │   ├───────────┼───────╫──────────┼──────────╫─────────────┼──────────┤
    │   │"Business",│       ║          │"Normal", ║             │          │
    │   │"Private"  │       ║          │ "High",  ║             │          │
    │   │           │       ║          │ "Low"    ║             │          │
    ╞═══╪═══════════╪═══════╬══════════╪══════════╬═════════════╪══════════╡
    │ 1 │"Business" │  <10  ║   0.10   │ "Normal" ║ Small order │   Ref 1  │
    ├───┼───────────┼───────╫──────────┼──────────╫─────────────┼──────────┤
    │ 2 │"Business" │ >=10  ║   0.15   │  "High"  ║ Large order │   Ref 2  │
    ├───┼───────────┼───────╫──────────┼──────────╫─────────────┼──────────┤
    │ 3 │"Private"  │   -   ║   0.05   │  "Low"   ║ All orders  │   Ref 3  │
    └───┴───────────┴───────╨──────────┴──────────╨─────────────┴──────────┘
  "#;
  let mut controller = Controller::new(INPUT_0002).with_viewport(DELETE_BEFORE_CURSOR_WIDTH, DELETE_BEFORE_CURSOR_HEIGHT);
  actions(&mut controller, &[Insert('X', 100), RowEnd(1), DeleteBefore(115), Insert('Y', 1)]);
  assert_eq!(expected, text(&controller));
}



const DELETE_UNDER_CURSOR_WIDTH: usize = 800;
const DELETE_UNDER_CURSOR_HEIGHT: usize = 800;

/// Deleting two characters under cursor, cursor position stays unchanged.
#[test]
fn test_delete_under_cursor__0001() {
  let expected = r#"
    ┌───────────────┐
    │Order options  │
    ├───┬───────────┼───────╥─────────────────────╥─────────────┬───────────┐
    │ U │           │       ║    Order options    ║             │           │
    │   │ Customer  │ Order ╟──────────┬──────────╢ Description │ Reference │
    │   │   type    │ size  ║ Discount │ Priority ║             │           │
    │   ├───────────┼───────╫──────────┼──────────╫─────────────┼───────────┤
    │   │"Business",│       ║          │"Normal", ║             │           │
    │   │"Private"  │       ║          │ "High",  ║             │           │
    │   │           │       ║          │ "Low"    ║             │           │
    ╞═══╪═══════════╪═══════╬══════════╪══════════╬═════════════╪═══════════╡
    │ 1 │"Business" │  <10  ║   0.10   │ "Normal" ║ Small order │   Ref 1   │
    ├───┼───────────┼───────╫──────────┼──────────╫─────────────┼───────────┤
    │ 2 │"Business" │ >=10  ║   0.15   │  "High"  ║ Large order │   Ref 2   │
    ├───┼───────────┼───────╫──────────┼──────────╫─────────────┼───────────┤
    │ 3 │"Private"  │   -   ║   0.05   │  "Low"   ║ All orders  │   Ref 3   │
    └───┴───────────┴───────╨──────────┴──────────╨─────────────┴───────────┘
  "#;
  let mut controller = Controller::new(INPUT_0002).with_viewport(DELETE_UNDER_CURSOR_WIDTH, DELETE_UNDER_CURSOR_HEIGHT);
  actions(&mut controller, &[DeleteUnder(2), AssertPos(1, 1)]);
  assert_eq!(expected, text(&controller));
}

/// Deleting all characters under cursor in the information item name cell.
/// Cursor position stays unchanged, but a single character should be left in this cell.
#[test]
fn test_delete_under_cursor__0002() {
  let expected = r#"
    ┌─┐
    │ │
    ├─┴─┬───────────┬───────╥─────────────────────╥─────────────┬───────────┐
    │ U │           │       ║    Order options    ║             │           │
    │   │ Customer  │ Order ╟──────────┬──────────╢ Description │ Reference │
    │   │   type    │ size  ║ Discount │ Priority ║             │           │
    │   ├───────────┼───────╫──────────┼──────────╫─────────────┼───────────┤
    │   │"Business",│       ║          │"Normal", ║             │           │
    │   │"Private"  │       ║          │ "High",  ║             │           │
    │   │           │       ║          │ "Low"    ║             │           │
    ╞═══╪═══════════╪═══════╬══════════╪══════════╬═════════════╪═══════════╡
    │ 1 │"Business" │  <10  ║   0.10   │ "Normal" ║ Small order │   Ref 1   │
    ├───┼───────────┼───────╫──────────┼──────────╫─────────────┼───────────┤
    │ 2 │"Business" │ >=10  ║   0.15   │  "High"  ║ Large order │   Ref 2   │
    ├───┼───────────┼───────╫──────────┼──────────╫─────────────┼───────────┤
    │ 3 │"Private"  │   -   ║   0.05   │  "Low"   ║ All orders  │   Ref 3   │
    └───┴───────────┴───────╨──────────┴──────────╨─────────────┴───────────┘
  "#;
  let mut controller = Controller::new(INPUT_0002).with_viewport(DELETE_UNDER_CURSOR_WIDTH, DELETE_UNDER_CURSOR_HEIGHT);
  actions(&mut controller, &[DeleteUnder(100), AssertPos(1, 1)]);
  assert_eq!(expected, text(&controller));
}

/// Deleting all characters under cursor in the first column.
/// A single character should be left in every cell og the first column.
#[test]
fn test_delete_under_cursor__0003() {
  let expected = r#"
    ┌─────────────────┐
    │  Order options  │
    ├─┬───────────┬───┴───╥─────────────────────╥─────────────┬───────────┐
    │ │           │       ║    Order options    ║             │           │
    │ │ Customer  │ Order ╟──────────┬──────────╢ Description │ Reference │
    │ │   type    │ size  ║ Discount │ Priority ║             │           │
    │ ├───────────┼───────╫──────────┼──────────╫─────────────┼───────────┤
    │ │"Business",│       ║          │"Normal", ║             │           │
    │ │"Private"  │       ║          │ "High",  ║             │           │
    │ │           │       ║          │ "Low"    ║             │           │
    ╞═╪═══════════╪═══════╬══════════╪══════════╬═════════════╪═══════════╡
    │ │"Business" │  <10  ║   0.10   │ "Normal" ║ Small order │   Ref 1   │
    ├─┼───────────┼───────╫──────────┼──────────╫─────────────┼───────────┤
    │ │"Business" │ >=10  ║   0.15   │  "High"  ║ Large order │   Ref 2   │
    ├─┼───────────┼───────╫──────────┼──────────╫─────────────┼───────────┤
    │ │"Private"  │   -   ║   0.05   │  "Low"   ║ All orders  │   Ref 3   │
    └─┴───────────┴───────╨──────────┴──────────╨─────────────┴───────────┘
  "#;
  let mut controller = Controller::new(INPUT_0002).with_viewport(DELETE_UNDER_CURSOR_WIDTH, DELETE_UNDER_CURSOR_HEIGHT);
  actions(
    &mut controller,
    &[
      MoveDown(1),
      DeleteUnder(5),
      MoveDown(7),
      DeleteUnder(5),
      MoveDown(1),
      DeleteUnder(5),
      MoveDown(1),
      DeleteUnder(5),
    ],
  );
  assert_eq!(expected, text(&controller));
}

/// Deleting the last character in the cell should not have any effect for caret cursor.
#[test]
fn test_delete_under_cursor__0004() {
  let expected = r#"
    ┌─────────────────┐
    │  Order options  │
    ├───┬───────────┬─┴─────╥─────────────────────╥─────────────┬───────────┐
    │ U │           │       ║    Order options    ║             │           │
    │   │ Customer  │ Order ╟──────────┬──────────╢ Description │ Reference │
    │   │   type    │ size  ║ Discount │ Priority ║             │           │
    │   ├───────────┼───────╫──────────┼──────────╫─────────────┼───────────┤
    │   │"Business",│       ║          │"Normal", ║             │           │
    │   │"Private"  │       ║          │ "High",  ║             │           │
    │   │           │       ║          │ "Low"    ║             │           │
    ╞═══╪═══════════╪═══════╬══════════╪══════════╬═════════════╪═══════════╡
    │ 1 │"Business" │  <10  ║   0.10   │ "Normal" ║ Small order │   Ref 1   │
    ├───┼───────────┼───────╫──────────┼──────────╫─────────────┼───────────┤
    │ 2 │"Business" │ >=10  ║   0.15   │  "High"  ║ Large order │   Ref 2   │
    ├───┼───────────┼───────╫──────────┼──────────╫─────────────┼───────────┤
    │ 3 │"Private"  │   -   ║   0.05   │  "Low"   ║ All orders  │   Ref 3   │
    └───┴───────────┴───────╨──────────┴──────────╨─────────────┴───────────┘
  "#;
  let mut controller = Controller::new(INPUT_0002).with_viewport(DELETE_UNDER_CURSOR_WIDTH, DELETE_UNDER_CURSOR_HEIGHT);
  actions(&mut controller, &[CellEnd(1), DeleteUnder(1), AssertPos(18, 1)]);
  assert_eq!(expected, text(&controller));
}

/// Deleting the last character in the cell, when the cursor is a block,
/// should delete this last character and move the block cursor one position left.
#[test]
fn test_delete_under_cursor__0005() {
  let expected = r#"
    ┌───────────────┐
    │  Order options│
    ├───┬───────────┼───────╥─────────────────────╥─────────────┬───────────┐
    │ U │           │       ║    Order options    ║             │           │
    │   │ Customer  │ Order ╟──────────┬──────────╢ Description │ Reference │
    │   │   type    │ size  ║ Discount │ Priority ║             │           │
    │   ├───────────┼───────╫──────────┼──────────╫─────────────┼───────────┤
    │   │"Business",│       ║          │"Normal", ║             │           │
    │   │"Private"  │       ║          │ "High",  ║             │           │
    │   │           │       ║          │ "Low"    ║             │           │
    ╞═══╪═══════════╪═══════╬══════════╪══════════╬═════════════╪═══════════╡
    │ 1 │"Business" │  <10  ║   0.10   │ "Normal" ║ Small order │   Ref 1   │
    ├───┼───────────┼───────╫──────────┼──────────╫─────────────┼───────────┤
    │ 2 │"Business" │ >=10  ║   0.15   │  "High"  ║ Large order │   Ref 2   │
    ├───┼───────────┼───────╫──────────┼──────────╫─────────────┼───────────┤
    │ 3 │"Private"  │   -   ║   0.05   │  "Low"   ║ All orders  │   Ref 3   │
    └───┴───────────┴───────╨──────────┴──────────╨─────────────┴───────────┘
  "#;
  let mut controller = Controller::new(INPUT_0002).with_viewport(DELETE_UNDER_CURSOR_WIDTH, DELETE_UNDER_CURSOR_HEIGHT);
  actions(&mut controller, &[ToggleCaretBlock, CellEnd(1), DeleteUnder(2), AssertPos(15, 1)]);
  paper(&controller);
  assert_eq!(expected, text(&controller));
}

/// Deleting the last character in the cell, when the cursor is an underscore,
/// should delete this last character and move the underscore cursor one position left.
#[test]
fn test_delete_under_cursor__0006() {
  let expected = r#"
    ┌─────────────────┐
    │  Order options  │
    ├───┬───────────┬─┴─────╥─────────────────────╥─────────────┬────────┐
    │ U │           │       ║    Order options    ║             │        │
    │   │ Customer  │ Order ╟──────────┬──────────╢ Description │ Refere │
    │   │   type    │ size  ║ Discount │ Priority ║             │        │
    │   ├───────────┼───────╫──────────┼──────────╫─────────────┼────────┤
    │   │"Business",│       ║          │"Normal", ║             │        │
    │   │"Private"  │       ║          │ "High",  ║             │        │
    │   │           │       ║          │ "Low"    ║             │        │
    ╞═══╪═══════════╪═══════╬══════════╪══════════╬═════════════╪════════╡
    │ 1 │"Business" │  <10  ║   0.10   │ "Normal" ║ Small order │   Ref 1│
    ├───┼───────────┼───────╫──────────┼──────────╫─────────────┼────────┤
    │ 2 │"Business" │ >=10  ║   0.15   │  "High"  ║ Large order │   Ref 2│
    ├───┼───────────┼───────╫──────────┼──────────╫─────────────┼────────┤
    │ 3 │"Private"  │   -   ║   0.05   │  "Low"   ║ All orders  │   Ref 3│
    └───┴───────────┴───────╨──────────┴──────────╨─────────────┴────────┘
  "#;
  let mut controller = Controller::new(INPUT_0002).with_viewport(DELETE_UNDER_CURSOR_WIDTH, DELETE_UNDER_CURSOR_HEIGHT);
  actions(&mut controller, &[ToggleCaretUnderScore, MoveDown(2), RowEnd(1), DeleteUnder(10), AssertPos(68, 4)]);
  assert_eq!(expected, text(&controller));
}



const INSERT_CHAR_WIDTH: usize = 800;
const INSERT_CHAR_HEIGHT: usize = 600;

#[test]
fn test_insert_char__0001() {
  let expected = r#"
    ┌─────────────────┐
    │AB  Order options│
    ├───┬───────────┬─┴─────╥─────────────────────╥─────────────┬───────────┐
    │ U │           │       ║    Order options    ║             │           │
    │   │ Customer  │ Order ╟──────────┬──────────╢ Description │ Reference │
    │   │   type    │ size  ║ Discount │ Priority ║             │           │
    │   ├───────────┼───────╫──────────┼──────────╫─────────────┼───────────┤
    │   │"Business",│       ║          │"Normal", ║             │           │
    │   │"Private"  │       ║          │ "High",  ║             │           │
    │   │           │       ║          │ "Low"    ║             │           │
    ╞═══╪═══════════╪═══════╬══════════╪══════════╬═════════════╪═══════════╡
    │ 1 │"Business" │  <10  ║   0.10   │ "Normal" ║ Small order │   Ref 1   │
    ├───┼───────────┼───────╫──────────┼──────────╫─────────────┼───────────┤
    │ 2 │"Business" │ >=10  ║   0.15   │  "High"  ║ Large order │   Ref 2   │
    ├───┼───────────┼───────╫──────────┼──────────╫─────────────┼───────────┤
    │ 3 │"Private"  │   -   ║   0.05   │  "Low"   ║ All orders  │   Ref 3   │
    └───┴───────────┴───────╨──────────┴──────────╨─────────────┴───────────┘
  "#;
  let mut controller = Controller::new(INPUT_0002).with_viewport(INSERT_CHAR_WIDTH, INSERT_CHAR_HEIGHT);
  assert!(controller.cursor().is_caret());
  ('A'..='B').for_each(|ch| {
    controller.insert_char(ch);
  });
  assert_eq!(expected, text(&controller));
}

#[test]
fn test_insert_char__0002() {
  let expected = r#"
    ┌─────────────────┐
    │  Order options  │
    ├───┬───────────┬─┴─────╥─────────────────────╥─────────────┬───────────┐
    │A U│           │       ║    Order options    ║             │           │
    │   │ Customer  │ Order ╟──────────┬──────────╢ Description │ Reference │
    │   │   type    │ size  ║ Discount │ Priority ║             │           │
    │   ├───────────┼───────╫──────────┼──────────╫─────────────┼───────────┤
    │   │"Business",│       ║          │"Normal", ║             │           │
    │   │"Private"  │       ║          │ "High",  ║             │           │
    │   │           │       ║          │ "Low"    ║             │           │
    ╞═══╪═══════════╪═══════╬══════════╪══════════╬═════════════╪═══════════╡
    │ 1 │"Business" │  <10  ║   0.10   │ "Normal" ║ Small order │   Ref 1   │
    ├───┼───────────┼───────╫──────────┼──────────╫─────────────┼───────────┤
    │ 2 │"Business" │ >=10  ║   0.15   │  "High"  ║ Large order │   Ref 2   │
    ├───┼───────────┼───────╫──────────┼──────────╫─────────────┼───────────┤
    │ 3 │"Private"  │   -   ║   0.05   │  "Low"   ║ All orders  │   Ref 3   │
    └───┴───────────┴───────╨──────────┴──────────╨─────────────┴───────────┘
  "#;
  let mut controller = Controller::new(INPUT_0002).with_viewport(INSERT_CHAR_WIDTH, INSERT_CHAR_HEIGHT);
  assert!(controller.cursor().is_caret());
  controller.cursor_move_down();
  controller.insert_char('A');
  assert_eq!(expected, text(&controller));
}

#[test]
fn test_insert_char__0003() {
  let expected = r#"
    ┌─────────────────┐
    │  Order options  │
    ├────┬───────────┬┴──────╥─────────────────────╥─────────────┬───────────┐
    │ U X│           │       ║    Order options    ║             │           │
    │    │ Customer  │ Order ╟──────────┬──────────╢ Description │ Reference │
    │    │   type    │ size  ║ Discount │ Priority ║             │           │
    │    ├───────────┼───────╫──────────┼──────────╫─────────────┼───────────┤
    │    │"Business",│       ║          │"Normal", ║             │           │
    │    │"Private"  │       ║          │ "High",  ║             │           │
    │    │           │       ║          │ "Low"    ║             │           │
    ╞════╪═══════════╪═══════╬══════════╪══════════╬═════════════╪═══════════╡
    │ 1  │"Business" │  <10  ║   0.10   │ "Normal" ║ Small order │   Ref 1   │
    ├────┼───────────┼───────╫──────────┼──────────╫─────────────┼───────────┤
    │ 2  │"Business" │ >=10  ║   0.15   │  "High"  ║ Large order │   Ref 2   │
    ├────┼───────────┼───────╫──────────┼──────────╫─────────────┼───────────┤
    │ 3  │"Private"  │   -   ║   0.05   │  "Low"   ║ All orders  │   Ref 3   │
    └────┴───────────┴───────╨──────────┴──────────╨─────────────┴───────────┘
  "#;
  let mut controller = Controller::new(INPUT_0002).with_viewport(INSERT_CHAR_WIDTH, INSERT_CHAR_HEIGHT);
  assert!(controller.cursor().is_caret());
  controller.cursor_move_down();
  (1..=3).for_each(|_| {
    controller.cursor_move_right();
  });
  controller.insert_char('X');
  assert_eq!(expected, text(&controller));
}

#[test]
fn test_insert_char__0004() {
  let expected = r#"
    ┌───────────────────────────────────────────────────────────────────────────┐
    │XXXXXXXXXXXXXXXXXXXXXXXXXXXXXXXXXXXXXXXXXXXXXXXXXXXXXXXXXXXX  Order options│
    ├───┬───────────┬───────╥─────────────────────╥─────────────┬───────────────┤
    │ U │           │       ║    Order options    ║             │               │
    │   │ Customer  │ Order ╟──────────┬──────────╢ Description │ Reference     │
    │   │   type    │ size  ║ Discount │ Priority ║             │               │
    │   ├───────────┼───────╫──────────┼──────────╫─────────────┼───────────────┤
    │   │"Business",│       ║          │"Normal", ║             │               │
    │   │"Private"  │       ║          │ "High",  ║             │               │
    │   │           │       ║          │ "Low"    ║             │               │
    ╞═══╪═══════════╪═══════╬══════════╪══════════╬═════════════╪═══════════════╡
    │ 1 │"Business" │  <10  ║   0.10   │ "Normal" ║ Small order │   Ref 1       │
    ├───┼───────────┼───────╫──────────┼──────────╫─────────────┼───────────────┤
    │ 2 │"Business" │ >=10  ║   0.15   │  "High"  ║ Large order │   Ref 2       │
    ├───┼───────────┼───────╫──────────┼──────────╫─────────────┼───────────────┤
    │ 3 │"Private"  │   -   ║   0.05   │  "Low"   ║ All orders  │   Ref 3       │
    └───┴───────────┴───────╨──────────┴──────────╨─────────────┴───────────────┘
  "#;
  let mut controller = Controller::new(INPUT_0002).with_viewport(INSERT_CHAR_WIDTH, INSERT_CHAR_HEIGHT);
  assert!(controller.cursor().is_caret());
  (1..=60).for_each(|_| {
    controller.insert_char('X');
  });
  assert_eq!(expected, text(&controller));
}

#[test]
fn test_insert_char__0005() {
  let expected = r#"
    ┌───────────────────────────────────────────────────────────────────────┐
    │XXXXXXXXXXXXXXXXXXXXXXXXXXXXXXXXXXXXXXXXXXXXXXXXXXXXXXXX  Order options│
    ├───┬───────────┬───────╥─────────────────────╥──────────────┬──────────┴┐
    │ U │           │       ║    Order options    ║          XXXX│           │
    │   │ Customer  │ Order ╟──────────┬──────────╢ Description  │ Reference │
    │   │   type    │ size  ║ Discount │ Priority ║              │           │
    │   ├───────────┼───────╫──────────┼──────────╫──────────────┼───────────┤
    │   │"Business",│       ║          │"Normal", ║              │           │
    │   │"Private"  │       ║          │ "High",  ║              │           │
    │   │           │       ║          │ "Low"    ║              │           │
    ╞═══╪═══════════╪═══════╬══════════╪══════════╬══════════════╪═══════════╡
    │ 1 │"Business" │  <10  ║   0.10   │ "Normal" ║ Small order  │   Ref 1   │
    ├───┼───────────┼───────╫──────────┼──────────╫──────────────┼───────────┤
    │ 2 │"Business" │ >=10  ║   0.15   │  "High"  ║ Large order  │   Ref 2   │
    ├───┼───────────┼───────╫──────────┼──────────╫──────────────┼───────────┤
    │ 3 │"Private"  │   -   ║   0.05   │  "Low"   ║ All orders   │   Ref 3   │
    └───┴───────────┴───────╨──────────┴──────────╨──────────────┴───────────┘
  "#;
  let mut controller = Controller::new(INPUT_0002).with_viewport(INSERT_CHAR_WIDTH, INSERT_CHAR_HEIGHT);
  assert!(controller.cursor().is_caret());
  (1..=56).for_each(|_| {
    controller.insert_char('X');
  });
  controller.cursor_move_down();
  (1..=4).for_each(|_| {
    controller.insert_char('X');
  });
  assert_eq!(expected, text(&controller));
}

#[test]
fn test_insert_char__0006() {
  let expected = r#"
    ┌─────────────────┐
    │  Order options  │
    ├───┬───────────┬─┴─────╥──────────────────────╥─────────────┬───────────┐
    │ U │           │       ║    Order options     ║             │           │
    │   │ Customer  │ Order ╟───────────┬──────────╢ Description │ Reference │
    │   │   type    │ size  ║XX Discount│ Priority ║             │           │
    │   ├───────────┼───────╫───────────┼──────────╫─────────────┼───────────┤
    │   │"Business",│       ║           │"Normal", ║             │           │
    │   │"Private"  │       ║           │ "High",  ║             │           │
    │   │           │       ║           │ "Low"    ║             │           │
    ╞═══╪═══════════╪═══════╬═══════════╪══════════╬═════════════╪═══════════╡
    │ 1 │"Business" │  <10  ║   0.10    │ "Normal" ║ Small order │   Ref 1   │
    ├───┼───────────┼───────╫───────────┼──────────╫─────────────┼───────────┤
    │ 2 │"Business" │ >=10  ║   0.15    │  "High"  ║ Large order │   Ref 2   │
    ├───┼───────────┼───────╫───────────┼──────────╫─────────────┼───────────┤
    │ 3 │"Private"  │   -   ║   0.05    │  "Low"   ║ All orders  │   Ref 3   │
    └───┴───────────┴───────╨───────────┴──────────╨─────────────┴───────────┘
  "#;
  let mut controller = Controller::new(INPUT_0002).with_viewport(INSERT_CHAR_WIDTH, INSERT_CHAR_HEIGHT);
  assert!(controller.cursor().is_caret());
  (1..=3).for_each(|_| {
    controller.cursor_move_down();
  });
  (1..=3).for_each(|_| {
    controller.cursor_move_cell_next();
  });
  (1..=2).for_each(|_| {
    controller.insert_char('X');
  });
  assert_eq!(expected, text(&controller));
}




#[test]
fn larger_view() {
  let expected = r#"
    ┌───────┐
    │  SLA  │
    ├───┬───┴─────────────┬───────────────╥─────┐
    │ U │ YearsAsCustomer │ NumberOfUnits ║ SLA │
    │   ├─────────────────┼───────────────╫─────┤
    │   │    [0..100]     │ [0..1000000]  ║ 1,2 │
    ╞═══╪═════════════════╪═══════════════╬═════╡
    │ 1 │       <2        │    <1000      ║  1  │
    ├───┼─────────────────┼───────────────╫─────┤
    │ 2 │       <2        │   >=1000      ║  2  │
    ├───┼─────────────────┼───────────────╫─────┤
    │ 3 │      >=2        │     <500      ║  1  │
    ├───┼─────────────────┼───────────────╫─────┤
    │ 4 │      >=2        │    >=500      ║  2  │
    └───┴─────────────────┴───────────────╨─────┘
  "#;
  const WIDTH: usize = 300; // this is a width of the display area
  const HEIGHT: usize = 200; // this is a height of the display area

  // both width and height are greater than the width and height of the loaded content
  let mut controller = Controller::new(INPUT_0001).with_viewport(WIDTH, HEIGHT);
  assert_eq!(expected, text(&controller));

  // viewport size is set to the display size
  assert_eq!(format!("(0, 0, {WIDTH}, {HEIGHT})"), controller.viewport().to_string());

  // cursor position should be in the left top corner, but not at the '┌' character
  // that's why it is (1, 1) and not (0, 0)
  assert_eq!((1, 1), controller.cursor().pos());

  // this is the region of the edited text
  assert_eq!("(0, 0, 45, 15)", controller.content_region().to_string());
}

#[test]
fn smaller_view() {
  let expected = r#"
    ┌───────┐
    │  SLA  │
    ├───┬───┴─────────────┬───────────────╥─────┐
    │ U │ YearsAsCustomer │ NumberOfUnits ║ SLA │
    │   ├─────────────────┼───────────────╫─────┤
    │   │    [0..100]     │ [0..1000000]  ║ 1,2 │
    ╞═══╪═════════════════╪═══════════════╬═════╡
    │ 1 │       <2        │    <1000      ║  1  │
    ├───┼─────────────────┼───────────────╫─────┤
    │ 2 │       <2        │   >=1000      ║  2  │
    ├───┼─────────────────┼───────────────╫─────┤
    │ 3 │      >=2        │     <500      ║  1  │
    ├───┼─────────────────┼───────────────╫─────┤
    │ 4 │      >=2        │    >=500      ║  2  │
    └───┴─────────────────┴───────────────╨─────┘
  "#;
  const WIDTH: usize = 10; // this is a width of the display area
  const HEIGHT: usize = 6; // this is a height of the display area

  // both width and height are less than the width and height of the loaded content
  let mut controller = Controller::new(INPUT_0001).with_viewport(10, 6);
  assert_eq!(expected, text(&controller));

  // viewport size is set to the display size
  assert_eq!(format!("(0, 0, {WIDTH}, {HEIGHT})"), controller.viewport().to_string());

  // cursor position should be in the left top corner, but not at the '┌' character
  // that's why it is (1, 1) and not (0, 0)
  assert_eq!((1, 1), controller.cursor().pos());

  // this is the region of the edited text
  assert_eq!("(0, 0, 45, 15)", controller.content_region().to_string());
}

#[test]
fn empty_lines_are_skipped() {
  let mut controller1 = Controller::new(INPUT_0001).with_viewport(600, 600);
  let mut controller2 = Controller::new(INPUT_0003).with_viewport(600, 600);
  assert_eq!(controller1.content(), controller2.content());
  assert_eq!(controller1.content_region(), controller2.content_region());
  assert_eq!(text(&controller1), text(&controller2));
}



const OVERRIDE_CHAR_WIDTH: usize = 800;
const OVERRIDE_CHAR_HEIGHT: usize = 800;

#[test]
fn test_override_char__0001() {
  let expected = r#"
    ┌─────────────────┐
    │Information item9│
    ├───┬───────────┬─┴─────╥─────────────────────╥─────────────┬───────────┐
    │ U │AbcDefGhiJw│       ║    Order options    ║             │           │
    │   │ Customer  │ Order ╟──────────┬──────────╢ Description │ Reference │
    │   │   type    │ size  ║ Discount │ Priority ║             │           │
    │   ├───────────┼───────╫──────────┼──────────╫─────────────┼───────────┤
    │   │"Business",│       ║          │"Normal", ║             │           │
    │   │"Private"  │       ║          │ "High",  ║             │           │
    │   │           │       ║          │ "Low"    ║             │           │
    ╞═══╪═══════════╪═══════╬══════════╪══════════╬═════════════╪═══════════╡
    │ 1 │"Business" │  <10  ║   0.10   │ "Normal" ║ Small order │   Ref 1   │
    ├───┼───────────┼───────╫──────────┼──────────╫─────────────┼───────────┤
    │ 2 │"Business" │ >=10  ║   0.15   │  "High"  ║ Large order │   Ref 2   │
    ├───┼───────────┼───────╫──────────┼──────────╫─────────────┼───────────┤
    │ 3 │"Private"  │   -   ║   0.05   │  "Low"   ║ All orders  │   Ref 3   │
    └───┴───────────┴───────╨──────────┴──────────╨─────────────┴───────────┘
  "#;
  let mut controller = Controller::new(INPUT_0002).with_viewport(OVERRIDE_CHAR_WIDTH, OVERRIDE_CHAR_HEIGHT);
  actions(
    &mut controller,
    &[
      ToggleCaretBlock,
      InsertStr("Information item 123456789".to_string(), 1),
      CellStart(1),
      MoveDown(1),
      CellNext(1),
      InsertStr("AbcDefGhiJklMnoPqrStuVw".to_string(), 1),
    ],
  );
  assert_eq!(expected, text(&controller));
}




#[test]
fn shrink_view() {
  // width and height of the display area are greater than the width and height of the loaded content
  let mut controller = Controller::new(INPUT_0001).with_viewport(600, 600);
  // now the viewing area is shrunk
  controller.resize(12, 12);
  assert_eq!((0, 0, 12, 12), controller.viewport().rect());
}

#[test]
fn extend_view() {
  // width and height of the display area are greater than the width and height of the loaded content
  let mut controller = Controller::new(INPUT_0001).with_viewport(600, 600);
  // now the viewing area is extended
  controller.resize(1000, 1000);
  // because the display area is extended, there are some regions in the result,
  // these regions require repainting in the display
  assert_eq!((0, 0, 1000, 1000), controller.viewport().rect());
}



const UNSPLIT_LINE_WIDTH: usize = 800;
const UNSPLIT_LINE_HEIGHT: usize = 600;

#[test]
fn test_unsplit_line__0001() {
  let expected = r#"
    ┌─────────────────┐
    │  Order options  │
    ├───┬───────────┬─┴─────╥─────────────────────╥─────────────┬───────────┐
    │ U │           │       ║    Order options    ║             │           │
    │   │ Customer  │ Order ╟──────────┬──────────╢ Description │ Reference │
    │   │   type    │ size  ║ Discount │ Priority ║             │           │
    │   ├───────────┼───────╫──────────┼──────────╫─────────────┼───────────┤
    │   │"Business",│       ║          │"Normal", ║             │           │
    │   │"Private"  │       ║          │ "High",  ║             │           │
    │   │           │       ║          │ "Low"    ║             │           │
    ╞═══╪═══════════╪═══════╬══════════╪══════════╬═════════════╪═══════════╡
    │ 1 │"Business" │  <10  ║   0.10   │ "Normal" ║ Small order │   Ref 1   │
    ├───┼───────────┼───────╫──────────┼──────────╫─────────────┼───────────┤
    │ 2 │"Business" │ >=10  ║   0.15   │  "High"  ║ Large order │   Ref 2   │
    ├───┼───────────┼───────╫──────────┼──────────╫─────────────┼───────────┤
    │ 3 │"Private"  │   -   ║   0.05   │  "Low"   ║ All orders  │   Ref 3   │
    └───┴───────────┴───────╨──────────┴──────────╨─────────────┴───────────┘
  "#;
  let mut controller = Controller::new(INPUT_0002).with_viewport(UNSPLIT_LINE_WIDTH, UNSPLIT_LINE_HEIGHT);
  actions(&mut controller, &[DeleteBefore(1)]);
  assert_eq!(expected, text(&controller));
}

#[test]
fn test_unsplit_line__0002() {
  let expected = r#"
    ┌─────────────────┐
    │  Order options  │
    ├───┬───────────┬─┴─────╥─────────────────────╥─────────────┬───────────┐
    │ U │           │       ║    Order options    ║             │           │
    │   │ Customer  │ Order ╟──────────┬──────────╢ Description │ Reference │
    │   │   type    │ size  ║ Discount │ Priority ║             │           │
    │   ├───────────┼───────╫──────────┼──────────╫─────────────┼───────────┤
    │   │"Business",│       ║          │"Normal", ║             │           │
    │   │"Private"  │       ║          │ "High",  ║             │           │
    │   │           │       ║          │ "Low"    ║             │           │
    ╞═══╪═══════════╪═══════╬══════════╪══════════╬═════════════╪═══════════╡
    │ 1 │"Business" │  <10  ║   0.10   │ "Normal" ║ Small order │   Ref 1   │
    ├───┼───────────┼───────╫──────────┼──────────╫─────────────┼───────────┤
    │ 2 │"Business" │ >=10  ║   0.15   │  "High"  ║ Large order │   Ref 2   │
    ├───┼───────────┼───────╫──────────┼──────────╫─────────────┼───────────┤
    │ 3 │"Private"  │   -   ║   0.05   │  "Low"   ║ All orders  │   Ref 3   │
    └───┴───────────┴───────╨──────────┴──────────╨─────────────┴───────────┘
  "#;
  let mut controller = Controller::new(INPUT_0002).with_viewport(UNSPLIT_LINE_WIDTH, UNSPLIT_LINE_HEIGHT);
  actions(&mut controller, &[SplitLine(1), DeleteBefore(1)]);
  assert_eq!(expected, text(&controller));
}

#[test]
fn test_unsplit_line__0003() {
  let expected = r#"
    ┌─────────────────┐
    │  Order options  │
    ├───┬───────────┬─┴─────╥─────────────────────╥─────────────┬───────────┐
    │ U │           │       ║    Order options    ║             │           │
    │   │ Customer  │ Order ╟──────────┬──────────╢ Description │ Reference │
    │   │   type    │ size  ║ Discount │ Priority ║             │           │
    │   ├───────────┼───────╫──────────┼──────────╫─────────────┼───────────┤
    │   │"Business",│       ║          │"Normal", ║             │           │
    │   │"Private"  │       ║          │ "High",  ║             │           │
    │   │           │       ║          │ "Low"    ║             │           │
    ╞═══╪═══════════╪═══════╬══════════╪══════════╬═════════════╪═══════════╡
    │ 1 │"Business" │  <10  ║   0.10   │ "Normal" ║ Small order │   Ref 1   │
    ├───┼───────────┼───────╫──────────┼──────────╫─────────────┼───────────┤
    │ 2 │"Business" │ >=10  ║   0.15   │  "High"  ║ Large order │   Ref 2   │
    ├───┼───────────┼───────╫──────────┼──────────╫─────────────┼───────────┤
    │ 3 │"Private"  │   -   ║   0.05   │  "Low"   ║ All orders  │   Ref 3   │
    └───┴───────────┴───────╨──────────┴──────────╨─────────────┴───────────┘
  "#;
  let mut controller = Controller::new(INPUT_0002).with_viewport(UNSPLIT_LINE_WIDTH, UNSPLIT_LINE_HEIGHT);
  actions(&mut controller, &[MoveDown(1), CellNext(3), SplitLine(1), DeleteBefore(1)]);
  assert_eq!(expected, text(&controller));
}
