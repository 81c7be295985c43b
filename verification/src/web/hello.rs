use vstd::prelude::*;

use crate::web::opt_text;

verus! {

/// The page that greets `name`, or a stranger when no name is given.
pub open spec fn spec_hello_html(name: Option<Seq<char>>) -> Seq<char> {
    let who = match name {
        Some(n) => n,
        None => "stranger"@,
    };
    "Hello <strong> "@ + who + "</strong>"@
}

/// The hello page for the optional `name` query parameter.
pub fn hello_html(name: Option<String>) -> (html: String)
    ensures
        html@ == spec_hello_html(opt_text(name)),
        name matches Some(n) ==> html@ == "Hello <strong> "@ + n@ + "</strong>"@,
        name is None ==> html@ == "Hello <strong> stranger</strong>"@,
{
    let mut html = String::from_str("Hello <strong> ");
    match name {
        Some(n) => html.append(n.as_str()),
        None => html.append("stranger"),
    }
    html.append("</strong>");
    proof {
        reveal_strlit("Hello <strong> stranger</strong>");
        reveal_strlit("Hello <strong> ");
        reveal_strlit("stranger");
        reveal_strlit("</strong>");
        assert("Hello <strong> stranger</strong>"@ =~= "Hello <strong> "@ + "stranger"@ + "</strong>"@);
    }
    html
}

/// The hello page shows a given name whole, between the greeting and the closing tag,
/// whatever its length; without a name it greets a stranger.
pub proof fn law_hello_shows_whole_name(n: Seq<char>)
    ensures
        spec_hello_html(Some(n)).len() == n.len() + 24,
        spec_hello_html(Some(n)).take(15) == "Hello <strong> "@,
        spec_hello_html(Some(n)).subrange(15, 15 + n.len() as int) == n,
        spec_hello_html(Some(n)).skip(15 + n.len() as int) == "</strong>"@,
        spec_hello_html(None) == "Hello <strong> stranger</strong>"@,
{
    reveal_strlit("Hello <strong> stranger</strong>");
    reveal_strlit("Hello <strong> ");
    reveal_strlit("stranger");
    reveal_strlit("</strong>");
    let page = spec_hello_html(Some(n));
    assert(page.take(15) =~= "Hello <strong> "@);
    assert(page.subrange(15, 15 + n.len() as int) =~= n);
    assert(page.skip(15 + n.len() as int) =~= "</strong>"@);
    assert("Hello <strong> stranger</strong>"@ =~= "Hello <strong> "@ + "stranger"@ + "</strong>"@);
}

} // verus!
