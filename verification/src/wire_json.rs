//! What the provider views share: text out of content blocks, and the kind and
//! status of a tool.
use crate::json::{json_items, json_member, json_str, member};
use crate::text::{ascii_lower, chars_of, lower_chars, spells};
use crate::wire::text_view;
use vstd::prelude::*;

verus! {

/// The text of a block, where it has one.
pub open spec fn block_text(block: serde_json::Value) -> Option<Seq<char>> {
    match json_member(block, "text"@) {
        Some(t) => json_str(t),
        None => None,
    }
}

/// The texts one behind the other; a missing one counts for nothing.
pub open spec fn concatenated(texts: Seq<Option<Seq<char>>>) -> Seq<char>
    decreases texts.len(),
{
    if texts.len() == 0 {
        Seq::empty()
    } else {
        match texts.last() {
            Some(t) => concatenated(texts.drop_last()) + t,
            None => concatenated(texts.drop_last()),
        }
    }
}

/// The text of a content value: a string as it is, an array as the texts of its
/// blocks, and anything else as nothing.
pub open spec fn content_text(content: serde_json::Value) -> Seq<char> {
    match json_str(content) {
        Some(t) => t,
        None => match json_items(content) {
            Some(blocks) => concatenated(blocks.map_values(|b: serde_json::Value| block_text(b))),
            None => Seq::empty(),
        },
    }
}

/// The texts that may be missing, over their characters.
pub open spec fn optional_texts(texts: Seq<Option<String>>) -> Seq<Option<Seq<char>>> {
    texts.map_values(|t: Option<String>| text_view(t))
}

/// Joins the texts of blocks.
pub fn join_block_texts(texts: &[Option<String>]) -> (r: String)
    ensures
        r@ == concatenated(optional_texts(texts@)),
{
    let mut r = String::new();
    assert(r@ =~= Seq::<char>::empty());
    let ghost all = optional_texts(texts@);
    let mut i: usize = 0;
    while i < texts.len()
        invariant
            i <= texts@.len(),
            all == optional_texts(texts@),
            r@ == concatenated(all.take(i as int)),
        decreases texts@.len() - i,
    {
        assert(all.take(i + 1).drop_last() =~= all.take(i as int));
        assert(all[i as int] == text_view(texts@[i as int]));
        if let Some(t) = &texts[i] {
            r.append(t.as_str());
        }
        i = i + 1;
    }
    assert(all.take(i as int) =~= all);
    r
}

/// Joins the text of a content value.
pub fn blocks_text(content: &serde_json::Value) -> (r: String)
    ensures
        r@ == content_text(*content),
{
    if let Some(t) = content.as_str() {
        return t.to_owned();
    }
    match content.as_array() {
        None => {
            let r = String::new();
            assert(r@ =~= Seq::<char>::empty());
            r
        },
        Some(blocks) => {
            let ghost wanted = blocks@.map_values(|b: serde_json::Value| block_text(b));
            let mut texts: Vec<Option<String>> = Vec::new();
            let mut i: usize = 0;
            while i < blocks.len()
                invariant
                    i <= blocks@.len(),
                    wanted == blocks@.map_values(|b: serde_json::Value| block_text(b)),
                    optional_texts(texts@) == wanted.take(i as int),
                decreases blocks@.len() - i,
            {
                let ghost before = texts@;
                let mut found: Option<String> = None;
                if let Some(m) = member(&blocks[i], "text") {
                    if let Some(t) = m.as_str() {
                        found = Some(t.to_owned());
                    }
                }
                assert(text_view(found) == block_text(blocks@[i as int]));
                texts.push(found);
                i = i + 1;
                assert(optional_texts(texts@) =~= optional_texts(before).push(wanted[i - 1]));
                assert(optional_texts(texts@) =~= wanted.take(i as int));
            }
            assert(wanted.take(i as int) =~= wanted);
            join_block_texts(texts.as_slice())
        },
    }
}

/// The kind under which a tool is shown, by its name without ASCII case.
pub open spec fn tool_kind(name: Seq<char>) -> Seq<char> {
    let l = ascii_lower(name);
    if l == "read"@ {
        "read"@
    } else if l == "edit"@ || l == "write"@ || l == "notebookedit"@ {
        "edit"@
    } else if l == "bash"@ || l == "powershell"@ {
        "execute"@
    } else if l == "glob"@ || l == "grep"@ || l == "websearch"@ || l == "find"@ || l == "ls"@ {
        "search"@
    } else if l == "webfetch"@ {
        "fetch"@
    } else if l == "agent"@ || l == "task"@ {
        "think"@
    } else {
        "other"@
    }
}

pub fn tool_kind_from_name(name: &str) -> (r: &'static str)
    ensures
        r@ == tool_kind(name@),
{
    let chars = chars_of(name);
    let lower = lower_chars(chars.as_slice());
    let l = lower.as_slice();
    if spells(l, "read") {
        "read"
    } else if spells(l, "edit") || spells(l, "write") || spells(l, "notebookedit") {
        "edit"
    } else if spells(l, "bash") || spells(l, "powershell") {
        "execute"
    } else if spells(l, "glob") || spells(l, "grep") || spells(l, "websearch") || spells(l, "find")
        || spells(l, "ls") {
        "search"
    } else if spells(l, "webfetch") {
        "fetch"
    } else if spells(l, "agent") || spells(l, "task") {
        "think"
    } else {
        "other"
    }
}

/// The case of a tool's name does not change its kind.
pub proof fn law_tool_kind_ignores_case(a: Seq<char>, b: Seq<char>)
    requires
        ascii_lower(a) == ascii_lower(b),
    ensures
        tool_kind(a) == tool_kind(b),
{
}

/// The status of a tool call by its error flag.
pub fn tool_status(is_error: bool) -> (r: &'static str)
    ensures
        r@ == if is_error {
            "failed"@
        } else {
            "completed"@
        },
{
    if is_error {
        "failed"
    } else {
        "completed"
    }
}

/// The kind under which each tool is shown; a tool that is not known is `other`.
pub proof fn law_tools_have_these_kinds(name: Seq<char>)
    ensures
        ({
            let l = ascii_lower(name);
            let reads = l == "read"@;
            let edits = seq!["edit"@, "write"@, "notebookedit"@].contains(l);
            let executes = seq!["bash"@, "powershell"@].contains(l);
            let searches = seq!["glob"@, "grep"@, "websearch"@, "find"@, "ls"@].contains(l);
            let fetches = l == "webfetch"@;
            let thinks = seq!["agent"@, "task"@].contains(l);
            &&& reads ==> tool_kind(name) == "read"@
            &&& edits ==> tool_kind(name) == "edit"@
            &&& executes ==> tool_kind(name) == "execute"@
            &&& searches ==> tool_kind(name) == "search"@
            &&& fetches ==> tool_kind(name) == "fetch"@
            &&& thinks ==> tool_kind(name) == "think"@
            &&& !reads && !edits && !executes && !searches && !fetches && !thinks ==> tool_kind(name)
                == "other"@
        }),
{
    reveal_strlit("read");
    reveal_strlit("edit");
    reveal_strlit("write");
    reveal_strlit("notebookedit");
    reveal_strlit("bash");
    reveal_strlit("powershell");
    reveal_strlit("glob");
    reveal_strlit("grep");
    reveal_strlit("websearch");
    reveal_strlit("find");
    reveal_strlit("ls");
    reveal_strlit("webfetch");
    reveal_strlit("agent");
    reveal_strlit("task");
    let l = ascii_lower(name);
    let edits = seq!["edit"@, "write"@, "notebookedit"@];
    assert(edits[0] == "edit"@ && edits[1] == "write"@ && edits[2] == "notebookedit"@);
    let executes = seq!["bash"@, "powershell"@];
    assert(executes[0] == "bash"@ && executes[1] == "powershell"@);
    let searches = seq!["glob"@, "grep"@, "websearch"@, "find"@, "ls"@];
    assert(searches[0] == "glob"@ && searches[1] == "grep"@ && searches[2] == "websearch"@
        && searches[3] == "find"@ && searches[4] == "ls"@);
    let thinks = seq!["agent"@, "task"@];
    assert(thinks[0] == "agent"@ && thinks[1] == "task"@);
    assert("read"@[0] == 'r' && "edit"@[0] == 'e' && "write"@[0] == 'w' && "write"@[1] == 'r');
    assert("notebookedit"@[0] == 'n' && "bash"@[0] == 'b' && "powershell"@[0] == 'p');
    assert("glob"@[0] == 'g' && "grep"@[0] == 'g' && "websearch"@.len() == 9 && "find"@[0] == 'f'
        && "ls"@[0] == 'l' && "webfetch"@.len() == 8 && "webfetch"@[0] == 'w' && "webfetch"@[1]
        == 'e' && "agent"@[0] == 'a' && "task"@[0] == 't');
}

/// The text of blocks is every block's text, whole and in its place; a block
/// without one adds nothing.
pub proof fn law_block_texts_are_kept_in_their_order(
    first: Seq<Option<Seq<char>>>,
    text: Option<Seq<char>>,
    second: Seq<Option<Seq<char>>>,
)
    ensures
        concatenated(first + seq![text] + second) == concatenated(first) + (match text {
            Some(t) => t,
            None => Seq::empty(),
        }) + concatenated(second),
    decreases second.len(),
{
    let all = first + seq![text] + second;
    if second.len() == 0 {
        assert(all.drop_last() =~= first);
        assert(concatenated(all) =~= concatenated(first) + (match text {
            Some(t) => t,
            None => Seq::empty(),
        }) + concatenated(second));
    } else {
        law_block_texts_are_kept_in_their_order(first, text, second.drop_last());
        assert(all.drop_last() =~= first + seq![text] + second.drop_last());
        assert(concatenated(all) =~= concatenated(first) + (match text {
            Some(t) => t,
            None => Seq::empty(),
        }) + concatenated(second));
    }
}

/// A content that is a string is its text; one that is an array is the texts
/// under `text` of its blocks; any other has none.
pub proof fn law_contents_are_read_by_their_kind(content: serde_json::Value)
    ensures
        json_str(content) is Some ==> content_text(content) == json_str(content)->0,
        json_str(content) is None && json_items(content) is None ==> content_text(content).len()
            == 0,
        json_str(content) is None ==> (json_items(content) matches Some(blocks) ==> {
            &&& content_text(content) == concatenated(
                Seq::new(
                    blocks.len(),
                    |i: int|
                        match json_member(blocks[i], "text"@) {
                            Some(t) => json_str(t),
                            None => None,
                        },
                ),
            )
        }),
{
    if let Some(blocks) = json_items(content) {
        assert(blocks.map_values(|b: serde_json::Value| block_text(b)) =~= Seq::new(
            blocks.len(),
            |i: int|
                match json_member(blocks[i], "text"@) {
                    Some(t) => json_str(t),
                    None => None,
                },
        ));
    }
}

} // verus!
