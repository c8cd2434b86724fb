//! The command palette: a fixed registry of commands and the modal
//! keyboard-driven interaction state machine that filters and runs them.

use vstd::prelude::*;
use vstd::string::StrSliceExecFns;

verus! {

/// Every action the palette or the menus can ask the host to run.
#[derive(Clone, Copy, PartialEq, Eq, Structural, Debug)]
pub enum Command {
    NewSprite,
    OpenFile,
    LoadFromURL,
    SaveFile,
    ToggleGrid,
    ToggleIsometric,
    SetPencil,
    SetEraser,
    SetFill,
    SetColorPicker,
    ZoomIn,
    ZoomOut,
    ResetView,
    GenerateAI,
}

/// One registry row: display name, shortcut label, command.
pub struct CommandEntry {
    pub name: &'static str,
    pub shortcut: &'static str,
    pub command: Command,
}

/// `c` with an ASCII capital letter folded to its small form; anything
/// else is kept as it is.
pub open spec fn lower_char(c: char) -> char {
    if 'A' <= c && c <= 'Z' {
        ((c as u8) + 32) as char
    } else {
        c
    }
}

/// `s` folded characterwise by `lower_char`.
pub open spec fn lower_seq(s: Seq<char>) -> Seq<char> {
    s.map_values(|c: char| lower_char(c))
}

/// Whether `needle` occurs in `hay` as a contiguous run.
pub open spec fn is_substring(needle: Seq<char>, hay: Seq<char>) -> bool {
    exists|k: int|
        0 <= k <= hay.len() - needle.len() && #[trigger] hay.subrange(k, k + needle.len())
            == needle
}

/// The palette match rule: the query occurs in the entry name as a
/// substring, compared with ASCII letters folded to small form.
pub open spec fn matches_query(name: Seq<char>, query: Seq<char>) -> bool {
    is_substring(lower_seq(query), lower_seq(name))
}

/// The indices of the first `n` entries whose name matches the query,
/// in registry order.
pub open spec fn spec_filtered(entries: Seq<CommandEntry>, query: Seq<char>, n: int) -> Seq<usize>
    decreases n,
{
    if n <= 0 {
        Seq::empty()
    } else {
        let prefix = spec_filtered(entries, query, n - 1);
        if matches_query(entries[n - 1].name@, query) {
            prefix.push((n - 1) as usize)
        } else {
            prefix
        }
    }
}


/// The filter is stable and exact: its entries are the indices of
/// exactly the matching registry rows, in strictly increasing registry
/// order.
pub proof fn lemma_filtered_characterizes(entries: Seq<CommandEntry>, query: Seq<char>, n: int)
    requires
        0 <= n <= entries.len(),
        entries.len() <= usize::MAX,
    ensures
        forall|j: int|
            0 <= j < spec_filtered(entries, query, n).len() ==> 0 <= #[trigger] spec_filtered(
                entries,
                query,
                n,
            )[j] < n,
        forall|j1: int, j2: int|
            0 <= j1 < j2 < spec_filtered(entries, query, n).len() ==> #[trigger] spec_filtered(
                entries,
                query,
                n,
            )[j1] < #[trigger] spec_filtered(entries, query, n)[j2],
        forall|j: int|
            0 <= j < spec_filtered(entries, query, n).len() ==> matches_query(
                entries[#[trigger] spec_filtered(entries, query, n)[j] as int].name@,
                query,
            ),
        forall|i: int|
            0 <= i < n && matches_query(#[trigger] entries[i].name@, query) ==> spec_filtered(
                entries,
                query,
                n,
            ).contains(i as usize),
    decreases n,
{
    if n > 0 {
        lemma_filtered_characterizes(entries, query, n - 1);
        let prefix = spec_filtered(entries, query, n - 1);
        let full = spec_filtered(entries, query, n);
        if matches_query(entries[n - 1].name@, query) {
            assert(full == prefix.push((n - 1) as usize));
            assert(full.last() == (n - 1) as usize);
            assert forall|j: int| 0 <= j < full.len() implies 0 <= #[trigger] full[j] < n by {
                if j < prefix.len() {
                    assert(full[j] == prefix[j]);
                } else {
                    assert(full[j] == (n - 1) as usize);
                }
            }
            assert forall|j1: int, j2: int| 0 <= j1 < j2 < full.len() implies #[trigger] full[j1]
                < #[trigger] full[j2] by {
                assert(full[j1] == prefix[j1]);
                if j2 < prefix.len() {
                    assert(full[j2] == prefix[j2]);
                } else {
                    assert(full[j2] == (n - 1) as usize);
                    assert(prefix[j1] < n - 1);
                }
            }
            assert forall|j: int|
                0 <= j < full.len() implies matches_query(
                entries[#[trigger] full[j] as int].name@,
                query,
            ) by {
                if j < prefix.len() {
                    assert(full[j] == prefix[j]);
                } else {
                    assert(full[j] == (n - 1) as usize);
                }
            }
            assert forall|i: int|
                0 <= i < n && matches_query(#[trigger] entries[i].name@, query) implies full.contains(
                i as usize,
            ) by {
                if i < n - 1 {
                    let j = choose|j: int| 0 <= j < prefix.len() && prefix[j] == i as usize;
                    assert(full[j] == i as usize);
                } else {
                    assert(full[full.len() - 1] == i as usize);
                }
            }
        } else {
            assert forall|i: int|
                0 <= i < n && matches_query(#[trigger] entries[i].name@, query) implies full.contains(
                i as usize,
            ) by {
                let j = choose|j: int| 0 <= j < prefix.len() && prefix[j] == i as usize;
                assert(full[j] == i as usize);
            }
        }
    }
}


/// Folding to small form maps a character to 'z' only from 'z' or 'Z'.
proof fn lemma_lower_char_z(c: char)
    ensures
        (lower_char(c) == 'z') == (c == 'z' || c == 'Z'),
{
}

/// A name without a 'z' in either case cannot match the query "zoom".
proof fn lemma_no_z_no_zoom_match(name: Seq<char>)
    requires
        forall|i: int| 0 <= i < name.len() ==> #[trigger] name[i] != 'z' && name[i] != 'Z',
    ensures
        !matches_query(name, "zoom"@),
{
    reveal_strlit("zoom");
    let needle = lower_seq("zoom"@);
    let hay = lower_seq(name);
    assert(needle.len() == 4);
    assert(needle[0] == lower_char('z'));
    assert(needle[0] == 'z');
    if matches_query(name, "zoom"@) {
        let k = choose|k: int|
            0 <= k <= hay.len() - needle.len() && #[trigger] hay.subrange(k, k + needle.len())
                == needle;
        assert(hay.subrange(k, k + needle.len())[0] == hay[k]);
        assert(hay[k] == lower_char(name[k]));
        lemma_lower_char_z(name[k]);
        assert(false);
    }
}

/// The query "zoom" matches a name that starts with "Zoom".
proof fn lemma_zoom_prefix_matches(name: Seq<char>)
    requires
        name.len() >= 4,
        name[0] == 'Z',
        name[1] == 'o',
        name[2] == 'o',
        name[3] == 'm',
    ensures
        matches_query(name, "zoom"@),
{
    reveal_strlit("zoom");
    let needle = lower_seq("zoom"@);
    let hay = lower_seq(name);
    assert(needle.len() == 4);
    assert(hay.subrange(0, 0 + needle.len() as int) =~= needle) by {
        assert(hay[0] == lower_char('Z'));
        assert(hay[1] == lower_char('o'));
        assert(hay[2] == lower_char('o'));
        assert(hay[3] == lower_char('m'));
        assert(needle[0] == lower_char('z'));
        assert(needle[1] == lower_char('o'));
        assert(needle[2] == lower_char('o'));
        assert(needle[3] == lower_char('m'));
    }
    assert(is_substring(needle, hay));
}

/// On the registry, the query "zoom" filters to exactly the Zoom In and
/// Zoom Out rows, in that order.
pub proof fn lemma_zoom_filter(entries: Seq<CommandEntry>)
    requires
        entries.len() == 14,
        entries[0].name@ == "New Sprite"@,
        entries[1].name@ == "Open File..."@,
        entries[2].name@ == "Load from URL..."@,
        entries[3].name@ == "Save File"@,
        entries[4].name@ == "Toggle Grid"@,
        entries[5].name@ == "Toggle Isometric View"@,
        entries[6].name@ == "Pencil Tool"@,
        entries[7].name@ == "Eraser Tool"@,
        entries[8].name@ == "Fill Tool"@,
        entries[9].name@ == "Color Picker Tool"@,
        entries[10].name@ == "Zoom In"@,
        entries[11].name@ == "Zoom Out"@,
        entries[12].name@ == "Reset View"@,
        entries[13].name@ == "Generate with AI..."@,
    ensures
        spec_filtered(entries, "zoom"@, 14) == seq![10usize, 11usize],
{
    reveal_strlit("New Sprite");
    reveal_strlit("Open File...");
    reveal_strlit("Load from URL...");
    reveal_strlit("Save File");
    reveal_strlit("Toggle Grid");
    reveal_strlit("Toggle Isometric View");
    reveal_strlit("Pencil Tool");
    reveal_strlit("Eraser Tool");
    reveal_strlit("Fill Tool");
    reveal_strlit("Color Picker Tool");
    reveal_strlit("Zoom In");
    reveal_strlit("Zoom Out");
    reveal_strlit("Reset View");
    reveal_strlit("Generate with AI...");
    assert forall|i: int|
        0 <= i < "New Sprite"@.len() implies #[trigger] "New Sprite"@[i] != 'z'
        && "New Sprite"@[i] != 'Z' by {}
    lemma_no_z_no_zoom_match("New Sprite"@);
    assert forall|i: int|
        0 <= i < "Open File..."@.len() implies #[trigger] "Open File..."@[i] != 'z'
        && "Open File..."@[i] != 'Z' by {}
    lemma_no_z_no_zoom_match("Open File..."@);
    assert forall|i: int|
        0 <= i < "Load from URL..."@.len() implies #[trigger] "Load from URL..."@[i] != 'z'
        && "Load from URL..."@[i] != 'Z' by {}
    lemma_no_z_no_zoom_match("Load from URL..."@);
    assert forall|i: int|
        0 <= i < "Save File"@.len() implies #[trigger] "Save File"@[i] != 'z' && "Save File"@[i]
        != 'Z' by {}
    lemma_no_z_no_zoom_match("Save File"@);
    assert forall|i: int|
        0 <= i < "Toggle Grid"@.len() implies #[trigger] "Toggle Grid"@[i] != 'z'
        && "Toggle Grid"@[i] != 'Z' by {}
    lemma_no_z_no_zoom_match("Toggle Grid"@);
    assert forall|i: int|
        0 <= i < "Toggle Isometric View"@.len() implies #[trigger] "Toggle Isometric View"@[i]
        != 'z' && "Toggle Isometric View"@[i] != 'Z' by {}
    lemma_no_z_no_zoom_match("Toggle Isometric View"@);
    assert forall|i: int|
        0 <= i < "Pencil Tool"@.len() implies #[trigger] "Pencil Tool"@[i] != 'z'
        && "Pencil Tool"@[i] != 'Z' by {}
    lemma_no_z_no_zoom_match("Pencil Tool"@);
    assert forall|i: int|
        0 <= i < "Eraser Tool"@.len() implies #[trigger] "Eraser Tool"@[i] != 'z'
        && "Eraser Tool"@[i] != 'Z' by {}
    lemma_no_z_no_zoom_match("Eraser Tool"@);
    assert forall|i: int|
        0 <= i < "Fill Tool"@.len() implies #[trigger] "Fill Tool"@[i] != 'z' && "Fill Tool"@[i]
        != 'Z' by {}
    lemma_no_z_no_zoom_match("Fill Tool"@);
    assert forall|i: int|
        0 <= i < "Color Picker Tool"@.len() implies #[trigger] "Color Picker Tool"@[i] != 'z'
        && "Color Picker Tool"@[i] != 'Z' by {}
    lemma_no_z_no_zoom_match("Color Picker Tool"@);
    assert forall|i: int|
        0 <= i < "Reset View"@.len() implies #[trigger] "Reset View"@[i] != 'z'
        && "Reset View"@[i] != 'Z' by {}
    lemma_no_z_no_zoom_match("Reset View"@);
    assert forall|i: int|
        0 <= i < "Generate with AI..."@.len() implies #[trigger] "Generate with AI..."@[i] != 'z'
        && "Generate with AI..."@[i] != 'Z' by {}
    lemma_no_z_no_zoom_match("Generate with AI..."@);
    lemma_zoom_prefix_matches("Zoom In"@);
    lemma_zoom_prefix_matches("Zoom Out"@);
    assert(spec_filtered(entries, "zoom"@, 0) =~= Seq::<usize>::empty());
    assert(spec_filtered(entries, "zoom"@, 1) =~= Seq::<usize>::empty());
    assert(spec_filtered(entries, "zoom"@, 2) =~= Seq::<usize>::empty());
    assert(spec_filtered(entries, "zoom"@, 3) =~= Seq::<usize>::empty());
    assert(spec_filtered(entries, "zoom"@, 4) =~= Seq::<usize>::empty());
    assert(spec_filtered(entries, "zoom"@, 5) =~= Seq::<usize>::empty());
    assert(spec_filtered(entries, "zoom"@, 6) =~= Seq::<usize>::empty());
    assert(spec_filtered(entries, "zoom"@, 7) =~= Seq::<usize>::empty());
    assert(spec_filtered(entries, "zoom"@, 8) =~= Seq::<usize>::empty());
    assert(spec_filtered(entries, "zoom"@, 9) =~= Seq::<usize>::empty());
    assert(spec_filtered(entries, "zoom"@, 10) =~= Seq::<usize>::empty());
    assert(spec_filtered(entries, "zoom"@, 11) =~= seq![10usize]);
    assert(spec_filtered(entries, "zoom"@, 12) =~= seq![10usize, 11usize]);
    assert(spec_filtered(entries, "zoom"@, 13) =~= seq![10usize, 11usize]);
    assert(spec_filtered(entries, "zoom"@, 14) =~= seq![10usize, 11usize]);
}


/// Typing "zoom" into the open palette and confirming runs Zoom In —
/// the first registry match — and closes the palette.
pub proof fn lemma_zoom_query_confirms_zoom_in(
    pre: CommandPalette,
    post: CommandPalette,
    entries: Seq<CommandEntry>,
    r: Option<Command>,
)
    requires
        entries.len() == 14,
        entries[0].name@ == "New Sprite"@,
        entries[1].name@ == "Open File..."@,
        entries[2].name@ == "Load from URL..."@,
        entries[3].name@ == "Save File"@,
        entries[4].name@ == "Toggle Grid"@,
        entries[5].name@ == "Toggle Isometric View"@,
        entries[6].name@ == "Pencil Tool"@,
        entries[7].name@ == "Eraser Tool"@,
        entries[8].name@ == "Fill Tool"@,
        entries[9].name@ == "Color Picker Tool"@,
        entries[10].name@ == "Zoom In"@,
        entries[10].command == Command::ZoomIn,
        entries[11].name@ == "Zoom Out"@,
        entries[12].name@ == "Reset View"@,
        entries[13].name@ == "Generate with AI..."@,
        pre.query@ == "zoom"@,
        pre.selected_index == 0,
        spec_step_holds(pre, post, entries, false, false, true, None::<usize>, r),
    ensures
        r == Some(Command::ZoomIn),
        post.is_open == false,
{
    lemma_zoom_filter(entries);
}

/// `lower_char`, executably.
fn lower_char_exec(c: char) -> (r: char)
    ensures
        r == lower_char(c),
{
    let code = c as u32;
    if 65 <= code && code <= 90 {
        ((code as u8) + 32) as char
    } else {
        c
    }
}

/// Whether the folded `query` occurs in the folded `name` as a
/// contiguous run.
pub fn str_contains_ci(name: &str, query: &str) -> (r: bool)
    ensures
        r == matches_query(name@, query@),
{
    let n = name.unicode_len();
    let m = query.unicode_len();
    if m > n {
        proof {
            assert(lower_seq(name@).len() == name@.len());
            assert(lower_seq(query@).len() == query@.len());
        }
        return false;
    }
    let ghost fname = lower_seq(name@);
    let ghost fquery = lower_seq(query@);
    proof {
        assert(fname.len() == n);
        assert(fquery.len() == m);
    }
    let mut k: usize = 0;
    loop
        invariant
            m == query@.len(),
            n == name@.len(),
            fname.len() == n,
            fquery.len() == m,
            m <= n,
            0 <= k <= n - m + 1,
            fname == lower_seq(name@),
            fquery == lower_seq(query@),
            forall|k2: int| 0 <= k2 < k ==> #[trigger] fname.subrange(k2, k2 + m as int) != fquery,
        ensures
            k > n - m,
            !is_substring(fquery, fname),
        decreases n - m + 1 - k,
    {
        if k > n - m {
            break ;
        }
        let mut j: usize = 0;
        let mut hit = true;
        while hit && j < m
            invariant
                m == query@.len(),
                n == name@.len(),
                fname.len() == n,
                fquery.len() == m,
                m <= n,
                0 <= k <= n - m,
                0 <= j <= m,
                !hit ==> m >= 1,
                fname == lower_seq(name@),
                fquery == lower_seq(query@),
                hit ==> forall|j2: int| 0 <= j2 < j ==> fname[k + j2] == #[trigger] fquery[j2],
                !hit ==> fname.subrange(k as int, k as int + m as int) != fquery,
            decreases m - j + (if hit { 1int } else { 0int }),
        {
            let nc = lower_char_exec(name.get_char(k + j));
            let qc = lower_char_exec(query.get_char(j));
            if nc != qc {
                hit = false;
                proof {
                    assert(fname.subrange(k as int, k as int + m as int)[j as int] == fname[k
                        + j]);
                }
            } else {
                j += 1;
            }
        }
        if hit {
            proof {
                assert(fname.subrange(k as int, k as int + m as int) =~= fquery);
            }
            return true;
        }
        k += 1;
    }
    false
}

/// The palette overlay state: whether it is open, the typed query and
/// the keyboard selection within the filtered list.
pub struct CommandPalette {
    pub is_open: bool,
    pub query: String,
    pub selected_index: usize,
}

impl Default for CommandPalette {
    /// A palette that starts closed with an empty query.
    fn default() -> (p: CommandPalette)
        ensures
            p.is_open == false,
            p.query@ == Seq::<char>::empty(),
            p.selected_index == 0,
    {
        CommandPalette { is_open: false, query: String::new(), selected_index: 0 }
    }
}

impl CommandPalette {
    /// The command registry: a fixed ordered list of every command the
    /// editor surfaces, including loading from a URL, so each one can be
    /// reached from the keyboard.
    pub fn commands() -> (r: Vec<CommandEntry>)
        ensures
            r@.len() == 14,
            r@[0].name@ == "New Sprite"@ && r@[0].shortcut@ == "Ctrl+N"@ && r@[0].command
                == Command::NewSprite,
            r@[1].name@ == "Open File..."@ && r@[1].shortcut@ == "Ctrl+O"@ && r@[1].command
                == Command::OpenFile,
            r@[2].name@ == "Load from URL..."@ && r@[2].shortcut@ == ""@ && r@[2].command
                == Command::LoadFromURL,
            r@[3].name@ == "Save File"@ && r@[3].shortcut@ == "Ctrl+S"@ && r@[3].command
                == Command::SaveFile,
            r@[4].name@ == "Toggle Grid"@ && r@[4].shortcut@ == "G"@ && r@[4].command
                == Command::ToggleGrid,
            r@[5].name@ == "Toggle Isometric View"@ && r@[5].shortcut@ == "V"@ && r@[5].command
                == Command::ToggleIsometric,
            r@[6].name@ == "Pencil Tool"@ && r@[6].shortcut@ == "P"@ && r@[6].command
                == Command::SetPencil,
            r@[7].name@ == "Eraser Tool"@ && r@[7].shortcut@ == "E"@ && r@[7].command
                == Command::SetEraser,
            r@[8].name@ == "Fill Tool"@ && r@[8].shortcut@ == "F"@ && r@[8].command
                == Command::SetFill,
            r@[9].name@ == "Color Picker Tool"@ && r@[9].shortcut@ == "I"@ && r@[9].command
                == Command::SetColorPicker,
            r@[10].name@ == "Zoom In"@ && r@[10].shortcut@ == "+"@ && r@[10].command
                == Command::ZoomIn,
            r@[11].name@ == "Zoom Out"@ && r@[11].shortcut@ == "-"@ && r@[11].command
                == Command::ZoomOut,
            r@[12].name@ == "Reset View"@ && r@[12].shortcut@ == "0"@ && r@[12].command
                == Command::ResetView,
            r@[13].name@ == "Generate with AI..."@ && r@[13].shortcut@ == ""@ && r@[13].command
                == Command::GenerateAI,
    {
        let mut r: Vec<CommandEntry> = Vec::new();
        r.push(CommandEntry { name: "New Sprite", shortcut: "Ctrl+N", command: Command::NewSprite });
        r.push(CommandEntry { name: "Open File...", shortcut: "Ctrl+O", command: Command::OpenFile });
        r.push(
            CommandEntry { name: "Load from URL...", shortcut: "", command: Command::LoadFromURL },
        );
        r.push(CommandEntry { name: "Save File", shortcut: "Ctrl+S", command: Command::SaveFile });
        r.push(CommandEntry { name: "Toggle Grid", shortcut: "G", command: Command::ToggleGrid });
        r.push(
            CommandEntry {
                name: "Toggle Isometric View",
                shortcut: "V",
                command: Command::ToggleIsometric,
            },
        );
        r.push(CommandEntry { name: "Pencil Tool", shortcut: "P", command: Command::SetPencil });
        r.push(CommandEntry { name: "Eraser Tool", shortcut: "E", command: Command::SetEraser });
        r.push(CommandEntry { name: "Fill Tool", shortcut: "F", command: Command::SetFill });
        r.push(
            CommandEntry {
                name: "Color Picker Tool",
                shortcut: "I",
                command: Command::SetColorPicker,
            },
        );
        r.push(CommandEntry { name: "Zoom In", shortcut: "+", command: Command::ZoomIn });
        r.push(CommandEntry { name: "Zoom Out", shortcut: "-", command: Command::ZoomOut });
        r.push(CommandEntry { name: "Reset View", shortcut: "0", command: Command::ResetView });
        r.push(
            CommandEntry { name: "Generate with AI...", shortcut: "", command: Command::GenerateAI },
        );
        r
    }

    /// Open the palette, clearing the query and the selection.
    pub fn open(&mut self)
        ensures
            final(self).is_open == true,
            final(self).query@ == Seq::<char>::empty(),
            final(self).selected_index == 0,
    {
        self.is_open = true;
        self.query = String::new();
        self.selected_index = 0;
    }

    /// The indices of the registry entries whose name contains the
    /// query, case-insensitively, in registry order.
    pub fn filtered_indices(entries: &Vec<CommandEntry>, query: &str) -> (r: Vec<usize>)
        ensures
            r@ == spec_filtered(entries@, query@, entries@.len() as int),
            forall|i: int| 0 <= i < r@.len() ==> r@[i] < entries@.len(),
    {
        let mut r: Vec<usize> = Vec::new();
        let mut i: usize = 0;
        while i < entries.len()
            invariant
                0 <= i <= entries@.len(),
                r@ == spec_filtered(entries@, query@, i as int),
                forall|j: int| 0 <= j < r@.len() ==> r@[j] < entries@.len(),
            decreases entries@.len() - i,
        {
            if str_contains_ci(entries[i].name, query) {
                r.push(i);
            }
            i += 1;
        }
        r
    }
}

/// The keyboard selection after one tick: a down arrow moves toward the
/// end, an up arrow toward the start, both saturating, and the result
/// is clamped into the filtered list.
pub open spec fn spec_selection_after(sel: int, flen: int, down: bool, up: bool) -> int {
    let cap = if flen == 0 {
        0int
    } else {
        flen - 1
    };
    let s1 = if down {
        if sel + 1 < cap {
            sel + 1
        } else {
            cap
        }
    } else {
        sel
    };
    let s2 = if up {
        if s1 == 0 {
            0int
        } else {
            s1 - 1
        }
    } else {
        s1
    };
    if s2 < cap {
        s2
    } else {
        cap
    }
}

impl CommandPalette {
    /// One interaction tick of the open palette: filter the registry by
    /// the query, move the keyboard selection without wrapping, and run
    /// a command on confirm or on a pointer pick, closing the palette.
    /// `clicked` is a pointer pick within the filtered list. A closed
    /// palette ignores everything.
    pub fn step(
        &mut self,
        entries: &Vec<CommandEntry>,
        escape: bool,
        down: bool,
        up: bool,
        enter: bool,
        clicked: Option<usize>,
    ) -> (r: Option<Command>)
        requires
            old(self).selected_index < usize::MAX,
        ensures
            !old(self).is_open ==> r is None && *final(self) == *old(self),
            old(self).is_open && escape ==> r is None && *final(self) == (CommandPalette {
                is_open: false,
                ..*old(self)
            }),
            old(self).is_open && !escape ==> spec_step_holds(*old(self), *final(self), entries@, down, up, enter, clicked, r),
    {
        if !self.is_open {
            return None;
        }
        if escape {
            self.is_open = false;
            return None;
        }
        let filtered = Self::filtered_indices(entries, self.query.as_str());
        let flen = filtered.len();
        let cap: usize = if flen == 0 {
            0
        } else {
            flen - 1
        };
        if down {
            self.selected_index = if self.selected_index + 1 < cap {
                self.selected_index + 1
            } else {
                cap
            };
        }
        if up {
            self.selected_index = if self.selected_index == 0 {
                0
            } else {
                self.selected_index - 1
            };
        }
        if self.selected_index > cap {
            self.selected_index = cap;
        }
        let mut executed: Option<Command> = None;
        if enter && flen > 0 {
            executed = Some(entries[filtered[self.selected_index]].command);
        }
        if let Some(ci) = clicked {
            if ci < flen {
                executed = Some(entries[filtered[ci]].command);
            }
        }
        if executed.is_some() {
            self.is_open = false;
        }
        executed
    }
}

/// What one tick of the open palette does, short of an escape: the
/// query is kept, the selection moves saturating and clamped, a pointer
/// pick runs its entry, otherwise a confirm runs the selected entry of
/// a non-empty list, and running a command closes the palette.
pub open spec fn spec_step_holds(
    pre: CommandPalette,
    post: CommandPalette,
    entries: Seq<CommandEntry>,
    down: bool,
    up: bool,
    enter: bool,
    clicked: Option<usize>,
    r: Option<Command>,
) -> bool {
    let filtered = spec_filtered(entries, pre.query@, entries.len() as int);
    let flen = filtered.len() as int;
    let sel = spec_selection_after(pre.selected_index as int, flen, down, up);
    &&& post.query@ == pre.query@
    &&& post.selected_index == sel
    &&& r == (match clicked {
        Some(ci) => {
            if (ci as int) < flen {
                Some(entries[filtered[ci as int] as int].command)
            } else if enter && flen > 0 {
                Some(entries[filtered[sel] as int].command)
            } else {
                None::<Command>
            }
        },
        None => {
            if enter && flen > 0 {
                Some(entries[filtered[sel] as int].command)
            } else {
                None::<Command>
            }
        },
    })
    &&& post.is_open == (r is None)
}


} // verus!
