//! The title.

use vstd::prelude::*;

verus! {

/// The letters of the title.
pub const TITLE_TEXT: &'static str = "
███    ███  █████  ██████  ██████  ██    ██      ██████ ██   ██ ██████  ██ ███████ ████████ ███    ███  █████  ███████ 
████  ████ ██   ██ ██   ██ ██   ██  ██  ██      ██      ██   ██ ██   ██ ██ ██         ██    ████  ████ ██   ██ ██      
██ ████ ██ ███████ ██████  ██████    ████       ██      ███████ ██████  ██ ███████    ██    ██ ████ ██ ███████ ███████ 
██  ██  ██ ██   ██ ██   ██ ██   ██    ██        ██      ██   ██ ██   ██ ██      ██    ██    ██  ██  ██ ██   ██      ██ 
██      ██ ██   ██ ██   ██ ██   ██    ██         ██████ ██   ██ ██   ██ ██ ███████    ██    ██      ██ ██   ██ ███████ 
                                                                                                                       
";

/// The shadow behind the letters of the title.
pub const TITLE_SHADOW: &'static str = "
   ╗      ╗      ╗       ╗       ╗   ╗     ╗           ╗  ╗    ╗      ╗   ╗       ╗        ╗   ╗      ╗      ╗        ╗
    ╗     ║  ╔══  ╗  ╔══  ╗  ╔══  ╗╚  ╗   ╔╝      ╔════╝  ║    ║  ╔══  ╗  ║  ╔════╝╚══  ╔══╝    ╗     ║  ╔══  ╗  ╔════╝
  ╔    ╔  ║       ║      ╔╝      ╔╝ ╚    ╔╝       ║            ║      ╔╝  ║       ╗     ║     ╔    ╔  ║       ║       ╗
  ║╚  ╔╝  ║  ╔══  ║  ╔══  ╗  ╔══  ╗  ╚  ╔╝        ║       ╔══  ║  ╔══  ╗  ║╚════  ║     ║     ║╚  ╔╝  ║  ╔══  ║╚════  ║
  ║ ╚═╝   ║  ║    ║  ║    ║  ║    ║     ║       ╚      ╗  ║    ║  ║    ║  ║       ║     ║     ║ ╚═╝   ║  ║    ║       ║
╚═╝     ╚═╝╚═╝  ╚═╝╚═╝  ╚═╝╚═╝  ╚═╝   ╚═╝        ╚═════╝╚═╝  ╚═╝╚═╝  ╚═╝╚═╝╚══════╝   ╚═╝   ╚═╝     ╚═╝╚═╝  ╚═╝╚══════╝
";

} // verus!
