//! Plain-text export: renders a list of stored text entries into one
//! markdown document, a dated heading per entry.

use vstd::prelude::*;

use crate::types::ClipboardEntry;
use vstd::string::StringExecFns;

verus! {

/// The block one entry contributes: a dated heading and the text, or
/// nothing when the entry holds no text.
pub open spec fn entry_block(e: ClipboardEntry) -> Seq<char> {
    match e.text_content {
        Some(ref t) => "### "@ + e.created_at@ + "\n\n"@ + t@ + "\n\n"@,
        None => Seq::empty(),
    }
}

/// The blocks of the entries from position `i` on.
pub open spec fn blocks_from(entries: Seq<ClipboardEntry>, i: int) -> Seq<char>
    decreases entries.len() - i,
{
    if i < 0 || i >= entries.len() {
        Seq::empty()
    } else {
        entry_block(entries[i]) + blocks_from(entries, i + 1)
    }
}

/// The whole export document: a titled header, then every text entry's
/// block in order.
pub open spec fn spec_text_export(entries: Seq<ClipboardEntry>, app_name: Seq<char>) -> Seq<
    char,
> {
    "# "@ + app_name + " - text entries\n\n"@ + blocks_from(entries, 0)
}

/// Renders the text entries of one application into a markdown document:
/// a titled header, then a dated heading and the text for every entry
/// that holds text, in order.
pub fn format_text_export(entries: &Vec<ClipboardEntry>, app_name: &str) -> (r: String)
    ensures
        r@ == spec_text_export(entries@, app_name@),
{
    let mut out: String = "# ".to_owned();
    out.append(app_name);
    out.append(" - text entries\n\n");
    let ghost header = out@;
    let mut i: usize = 0;
    while i < entries.len()
        invariant
            0 <= i <= entries@.len(),
            header + blocks_from(entries@, 0) == out@ + blocks_from(entries@, i as int),
            spec_text_export(entries@, app_name@) == header + blocks_from(entries@, 0),
        decreases entries@.len() - i,
    {
        let ghost out0 = out@;
        match &entries[i].text_content {
            Some(t) => {
                out.append("### ");
                out.append(entries[i].created_at.as_str());
                out.append("\n\n");
                out.append(t.as_str());
                out.append("\n\n");
                proof {
                    let e = entries@[i as int];
                    let tail = blocks_from(entries@, i + 1);
                    assert(out@ =~= out0 + entry_block(e));
                    assert(out0 + (entry_block(e) + tail) =~= (out0 + entry_block(e)) + tail);
                }
            },
            None => {
                proof {
                    assert(entry_block(entries@[i as int]) + blocks_from(entries@, i + 1)
                        =~= blocks_from(entries@, i + 1));
                }
            },
        }
        i += 1;
    }
    proof {
        assert(blocks_from(entries@, entries@.len() as int) =~= Seq::<char>::empty());
        assert(out@ + Seq::<char>::empty() =~= out@);
    }
    out
}

} // verus!
