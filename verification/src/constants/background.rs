//! The numbers and the art of the background.

use vstd::prelude::*;

verus! {

/// The rows of the ground.
pub const GROUND_HEIGHT: u16 = 3;

/// The number of kinds of snowflakes.
pub const SNOWFLAKE_KINDS: usize = 3;

/// The glyph of the snowflake of the kind `kind`, and a space for what is
/// no kind of snowflake.
pub open spec fn flake_glyph(kind: usize) -> char {
    if kind == 0 {
        '❄'
    } else if kind == 1 {
        '❅'
    } else if kind == 2 {
        '❆'
    } else {
        ' '
    }
}

/// The glyph of the snowflake of the kind `kind`, and a space for what is
/// no kind of snowflake.
pub fn snowflake(kind: usize) -> (c: char)
    ensures
        c == flake_glyph(kind),
{
    if kind == 0 {
        '❄'
    } else if kind == 1 {
        '❅'
    } else if kind == 2 {
        '❆'
    } else {
        ' '
    }
}

/// The columns between the left edge and the snowman.
pub const SNOWMAN_MARGIN: u16 = 8;

/// The snowman.
pub const SNOWMAN: &'static str = r#"
            .-~~\
           /     \ _
           ~x   .-~_)_
             ~x".-~   ~-.
         _   ( /         \   _
         ||   T  o  o     Y  ||
       ==:l   l   <       !  I;==
          \\   \  .__/   /  //
           \\ ,r"-,___.-'r.//
            }^ \.( )   _.'//.
           /    }~Xi--~  //  \
          Y    Y I\ \    "    Y
          |    | |o\ \        |
          |    l_l  Y T       |
          l      "o l_j       !
           \                 /
    ___,.---^.     o       .^---.._____
"~~~          "           ~            ~~~"
"#;

/// The columns between the tree and the right edge.
pub const TREE_MARGIN: u16 = 16;

/// The star on the tree.
pub const TREETOP_TEXT: &'static str = r#"
         |
        -+-
"#;

/// The trunk of the tree.
pub const TREEBOTTOM_TEXT: &'static str = r#"
 
 
 
 
 
 
 
 
 
 
 
 
 
 
 
       |||||
       |||||
"#;

/// The branches of the tree.
pub const TREEBODY_TEXT: &'static str = r#"
 
 
         A
        /=\
      i/ O \i
      /=====\
      /  i  \
    i/ O * O \i
    /=========\
    /  *   *  \
  i/ O   i   O \i
  /=============\
  /  O   i   O  \
i/ *   O   O   * \i
/=================\
"#;

} // verus!
