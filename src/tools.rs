use vstd::prelude::*;

use crate::json::Json;
use crate::pagination::{page_keys, page_start, KeyedList, PAGE_SIZE, next_cursor};
use crate::types::tool::{lists_tool, Tool};

verus! {

/// The registered tools, keyed by name.
pub struct ToolManager {
    pub tools: KeyedList<Tool>,
}

impl ToolManager {
    /// Every entry is keyed by its tool's name, in name order.
    pub open spec fn wf(&self) -> bool {
        &&& self.tools.wf()
        &&& forall|i: int|
            0 <= i < self.tools.entries@.len() ==> #[trigger] self.tools.entries@[i].0@
                == self.tools.entries@[i].1.name@
    }

    pub open spec fn names(&self) -> Seq<Seq<char>> {
        self.tools.keys()
    }

    pub fn new() -> (r: Self)
        ensures
            r.wf(),
            r.names().len() == 0,
    {
        ToolManager { tools: KeyedList::new() }
    }

    /// Registers `tool`, replacing a tool of the same name. Returns whether one was replaced.
    pub fn register_tool(&mut self, tool: Tool) -> (replaced: bool)
        requires
            old(self).wf(),
        ensures
            final(self).wf(),
            replaced == old(self).tools.has(tool.name@),
            final(self).tools.has(tool.name@),
            final(self).tools.lookup(tool.name@) == tool,
            forall|k: Seq<char>| k != tool.name@ ==> final(self).tools.has(k) == old(self).tools.has(k),
            forall|k: Seq<char>|
                k != tool.name@ && #[trigger] old(self).tools.has(k) ==> final(self).tools.lookup(k)
                    == old(self).tools.lookup(k),
    {
        let key = tool.name.clone();
        let ghost t = tool;
        let r = self.tools.insert(key, tool);
        proof {
            let ts = self.tools;
            assert forall|i: int| 0 <= i < ts.entries@.len() implies #[trigger] ts.entries@[i].0@
                == ts.entries@[i].1.name@ by {
                ts.lemma_index_of(i);
                let k = ts.entries@[i].0@;
                if k != t.name@ {
                    let old_tools = old(self).tools;
                    assert(old_tools.has(k));
                    let j = old_tools.index_of(k);
                    old_tools.lemma_index_of(j);
                    assert(old_tools.entries@[j].0@ == old_tools.entries@[j].1.name@);
                }
            }
        }
        r
    }

    /// Whether a tool named `name` is registered.
    pub fn has_tool(&self, name: &str) -> (r: bool)
        requires
            self.wf(),
        ensures
            r == self.tools.has(name@),
    {
        self.tools.find(name).is_some()
    }

    /// The page of tools after `cursor`, in name order, and the cursor of the next page.
    pub fn list_tools(&self, cursor: &str) -> (r: (Vec<Json>, String))
        requires
            self.wf(),
        ensures
            r.0@.len() == page_keys(self.names(), cursor@, PAGE_SIZE as nat).len(),
            forall|i: int|
                0 <= i < r.0@.len() ==> lists_tool(
                    self.tools.entries@[page_start(self.names(), cursor@) + i].1,
                    #[trigger] r.0@[i],
                ),
            r.1@ == next_cursor(self.names(), cursor@, PAGE_SIZE as nat),
    {
        let (start, end, next) = self.tools.page(cursor, PAGE_SIZE);
        let mut out: Vec<Json> = Vec::new();
        let mut i = start;
        while i < end
            invariant
                start <= i <= end,
                end <= self.tools.entries@.len(),
                out@.len() == i - start,
                forall|j: int|
                    0 <= j < out@.len() ==> lists_tool(
                        self.tools.entries@[start + j].1,
                        #[trigger] out@[j],
                    ),
            decreases end - i,
        {
            out.push(self.tools.entries[i].1.to_json());
            i = i + 1;
        }
        (out, next)
    }
}

} // verus!
