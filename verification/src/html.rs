//! The HTML page that the browser loads first; the script builds the rest.
use vstd::prelude::*;

verus! {

/// The page: a title, the stylesheet, an element for the application and
/// one for the lightbox, and the script.
pub open spec fn shell_html() -> Seq<char> {
    r#"<!doctype html>
<html>
<head>
    <meta charset="utf-8">
    <meta name="viewport" content="width=device-width, initial-scale=1">
    <title>VidDeck</title>
    <link rel="stylesheet" href="/style.css">
</head>
<body>
    <div id="app"></div>
    <div id="lightbox" class="lightbox"></div>
    <script src="/script.js"></script>
</body>
</html>
"#@
}

/// The HTML page that the index route serves.
pub fn generate_shell_html() -> (res: String)
    ensures
        res@ == shell_html(),
{
    r#"<!doctype html>
<html>
<head>
    <meta charset="utf-8">
    <meta name="viewport" content="width=device-width, initial-scale=1">
    <title>VidDeck</title>
    <link rel="stylesheet" href="/style.css">
</head>
<body>
    <div id="app"></div>
    <div id="lightbox" class="lightbox"></div>
    <script src="/script.js"></script>
</body>
</html>
"#.to_owned()
}

} // verus!
