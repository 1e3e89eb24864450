//! The harness page a browser test suite runs in.

use vstd::prelude::*;
use vstd::string::StringExecFns;

verus! {

/// What stands before the test script on the page.
pub open spec fn page_head() -> Seq<char> {
    "<html><head><meta http-equiv=\"Content-type\" content=\"text/html; charset=utf-8\"/><title>e2e test</title><link rel=\"stylesheet\" href=\"https://cdnjs.cloudflare.com/ajax/libs/mocha/6.2.0/mocha.css\"></head><body><div id=\"mocha\"></div><script src=\"https://cdnjs.cloudflare.com/ajax/libs/mocha/6.2.0/mocha.js\"></script><script src=\"https://cdnjs.cloudflare.com/ajax/libs/chai/4.2.0/chai.js\"></script><script>mocha.setup('bdd')</script><script>"@
}

/// What stands after the test script on the page.
pub open spec fn page_tail() -> Seq<char> {
    "</script><script>mocha.run()</script></body></html>"@
}

/// Builds the harness page around the given test script: the page head,
/// the script, the page tail, nothing else.
pub fn generate_html(test_js: &str) -> (r: String)
    ensures
        r@ == page_head() + test_js@ + page_tail(),
{
    let mut out = String::from_str(
        "<html><head><meta http-equiv=\"Content-type\" content=\"text/html; charset=utf-8\"/><title>e2e test</title><link rel=\"stylesheet\" href=\"https://cdnjs.cloudflare.com/ajax/libs/mocha/6.2.0/mocha.css\"></head><body><div id=\"mocha\"></div><script src=\"https://cdnjs.cloudflare.com/ajax/libs/mocha/6.2.0/mocha.js\"></script><script src=\"https://cdnjs.cloudflare.com/ajax/libs/chai/4.2.0/chai.js\"></script><script>mocha.setup('bdd')</script><script>",
    );
    out.append(test_js);
    out.append("</script><script>mocha.run()</script></body></html>");
    out
}

} // verus!
