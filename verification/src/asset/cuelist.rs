//! The cue-list asset kind: named groups of cue names, serialized as
//! tab-separated lines.

use vstd::prelude::*;
use vstd::string::StringSliceAdditionalSpecFns;

use crate::asset::{AssetDescriptor, AssetLike, AssetParseError, AssetType};
use crate::resource::VirtualResource;

verus! {

/// One group of cues: the group's name and its cue names, in order.
#[derive(Debug, Clone)]
pub struct CueGroup {
    name: String,
    cues: Vec<String>,
}

/// The mathematical content of one cue group.
pub struct CueGroupView {
    pub name: Seq<char>,
    pub cues: Seq<Seq<char>>,
}

impl View for CueGroup {
    type V = CueGroupView;

    closed spec fn view(&self) -> CueGroupView {
        CueGroupView { name: self.name@, cues: self.cues.deep_view() }
    }
}

impl DeepView for CueGroup {
    type V = CueGroupView;

    open spec fn deep_view(&self) -> CueGroupView {
        self.view()
    }
}

impl CueGroup {
    /// A group with the given name and cues, or none at all.
    pub fn new(name: String, cues: Option<Vec<String>>) -> (r: CueGroup)
        ensures
            r@.name == name@,
            r@.cues == (match cues {
                Some(c) => c.deep_view(),
                None => Seq::<Seq<char>>::empty(),
            }),
    {
        let cs = match cues {
            Some(c) => c,
            None => Vec::new(),
        };
        proof {
            if cues is None {
                assert(cs.deep_view() =~~= Seq::<Seq<char>>::empty());
            }
        }
        CueGroup { name, cues: cs }
    }

    pub fn name(&self) -> (r: &String)
        ensures
            r@ == self@.name,
    {
        &self.name
    }

    pub fn cues_of_group(&self) -> (r: &Vec<String>)
        ensures
            r.deep_view() == self@.cues,
    {
        &self.cues
    }
}

/// A cue-list descriptor: its groups, in order.
#[derive(Debug, Clone)]
pub struct CueListDescriptor {
    groups: Vec<CueGroup>,
}

impl CueListDescriptor {
    /// The groups, in order.
    pub closed spec fn spec_groups(&self) -> Seq<CueGroupView> {
        self.groups.deep_view()
    }

    /// Builds a descriptor from groups.
    pub fn from_groups(groups: Vec<CueGroup>) -> (r: CueListDescriptor)
        ensures
            r.spec_groups() == groups.deep_view(),
    {
        CueListDescriptor { groups }
    }

    pub fn groups(&self) -> (r: &Vec<CueGroup>)
        ensures
            r.deep_view() == self.spec_groups(),
    {
        &self.groups
    }

    /// The group a cue belongs to: the first group holding the cue, paired
    /// with the cue itself.
    pub fn get_cue(&self, cue: &str) -> (r: Option<(String, String)>)
        ensures
            spec_find_cue_group(self.spec_groups(), cue@, 0) is None <==> r is None,
            spec_find_cue_group(self.spec_groups(), cue@, 0) matches Some(g) ==> (r matches Some(
                p,
            ) && p.0@ == self.spec_groups()[g].name && p.1@ == cue@),
    {
        let mut g: usize = 0;
        proof {
            lemma_find_cue_group(self.spec_groups(), cue@, 0);
        }
        while g < self.groups.len()
            invariant
                0 <= g <= self.spec_groups().len(),
                spec_find_cue_group(self.spec_groups(), cue@, 0) == spec_find_cue_group(
                    self.spec_groups(),
                    cue@,
                    g as int,
                ),
                forall|gi: int, c: int|
                    0 <= gi < g && 0 <= c < self.spec_groups()[gi].cues.len()
                        ==> #[trigger] self.spec_groups()[gi].cues[c] != cue@,
            decreases self.spec_groups().len() - g,
        {
            let group = &self.groups[g];
            let mut c: usize = 0;
            while c < group.cues.len()
                invariant
                    g < self.spec_groups().len(),
                    group@ == self.spec_groups()[g as int],
                    spec_find_cue_group(self.spec_groups(), cue@, 0) == spec_find_cue_group(
                        self.spec_groups(),
                        cue@,
                        g as int,
                    ),
                    0 <= c <= group@.cues.len(),
                    forall|ci: int| 0 <= ci < c ==> (#[trigger] group@.cues[ci]) != cue@,
                decreases group@.cues.len() - c,
            {
                if crate::asset::bytes_eq(group.cues[c].as_str().as_bytes(), cue.as_bytes()) {
                    proof {
                        vstd::utf8::encode_utf8_decode_utf8(group@.cues[c as int]);
                        vstd::utf8::encode_utf8_decode_utf8(cue@);
                        assert(group@.cues[c as int] == cue@);
                        assert(group@.cues.contains(cue@));
                        assert(self.spec_groups()[g as int].cues.contains(cue@));
                        assert(spec_find_cue_group(self.spec_groups(), cue@, g as int) == Some(
                            g as int,
                        ));
                    }
                    return Some((group.name.clone(), group.cues[c].clone()));
                }
                proof {
                    if group@.cues[c as int] == cue@ {
                        assert(false);
                    }
                }
                c = c + 1;
            }
            proof {
                assert(!self.spec_groups()[g as int].cues.contains(cue@)) by {
                    if self.spec_groups()[g as int].cues.contains(cue@) {
                        let ci = choose|ci: int|
                            0 <= ci < group@.cues.len() && group@.cues[ci] == cue@;
                        assert(group@.cues[ci] != cue@);
                    }
                }
            }
            g = g + 1;
        }
        None
    }

    /// True when no group name and no cue name is empty.
    pub fn validate(&self) -> (r: bool)
        ensures
            r == (forall|g: int|
                0 <= g < self.spec_groups().len() ==> (#[trigger] self.spec_groups()[g]).name.len()
                    > 0 && (forall|c: int|
                    0 <= c < self.spec_groups()[g].cues.len()
                        ==> (#[trigger] self.spec_groups()[g].cues[c]).len() > 0)),
    {
        let mut g: usize = 0;
        while g < self.groups.len()
            invariant
                0 <= g <= self.spec_groups().len(),
                forall|gi: int|
                    0 <= gi < g ==> (#[trigger] self.spec_groups()[gi]).name.len() > 0 && (forall|
                        c: int,
                    |
                        0 <= c < self.spec_groups()[gi].cues.len()
                            ==> (#[trigger] self.spec_groups()[gi].cues[c]).len() > 0),
            decreases self.spec_groups().len() - g,
        {
            let group = &self.groups[g];
            if group.name.as_str().is_empty() {
                proof {
                    assert(self.spec_groups()[g as int].name.len() == 0);
                }
                return false;
            }
            let mut c: usize = 0;
            while c < group.cues.len()
                invariant
                    g < self.spec_groups().len(),
                    group@ == self.spec_groups()[g as int],
                    0 <= c <= group@.cues.len(),
                    forall|ci: int| 0 <= ci < c ==> (#[trigger] group@.cues[ci]).len() > 0,
                decreases group@.cues.len() - c,
            {
                if group.cues[c].as_str().is_empty() {
                    proof {
                        assert(self.spec_groups()[g as int].cues[c as int].len() == 0);
                    }
                    return false;
                }
                c = c + 1;
            }
            g = g + 1;
        }
        true
    }

    /// A cursor over all (group name, cue) pairs, in group order.
    pub fn cues(&self) -> (r: CueListIterator<'_>)
        ensures
            r.spec_descriptor() == self.spec_groups(),
            r.spec_group_index() == 0,
            r.spec_cue_index() == usize::MAX,
    {
        CueListIterator {
            cue_list_descriptor: self,
            current_group_index: 0,
            current_cue_index: usize::MAX,
        }
    }
}

/// A cursor over a cue list's (group name, cue) pairs.
pub struct CueListIterator<'cl> {
    cue_list_descriptor: &'cl CueListDescriptor,
    current_group_index: usize,
    current_cue_index: usize,
}

impl<'cl> CueListIterator<'cl> {
    pub closed spec fn spec_descriptor(&self) -> Seq<CueGroupView> {
        self.cue_list_descriptor.spec_groups()
    }

    pub closed spec fn spec_group_index(&self) -> usize {
        self.current_group_index
    }

    pub closed spec fn spec_cue_index(&self) -> usize {
        self.current_cue_index
    }

    /// The next (group name, cue) pair, advancing the cursor.  The cursor
    /// semantics are pinned exactly: the cue index steps (wrapping) first;
    /// a pair comes from the current group when that index lands on one of
    /// its cues; otherwise the cursor moves to the start of the next group,
    /// yielding its first cue when it has one and ending otherwise — so
    /// iteration visits groups in order, each group's cues in order, and
    /// ends at the first step that finds no cue.
    pub fn next(&mut self) -> (r: Option<(String, String)>)
        ensures
            final(self).spec_descriptor() == old(self).spec_descriptor(),
            ({
                let gs = old(self).spec_descriptor();
                let gi = old(self).spec_group_index() as int;
                let ci = vstd::wrapping::usize_specs::wrapping_add(
                    old(self).spec_cue_index(),
                    1,
                ) as int;
                if gi >= gs.len() {
                    r is None && final(self).spec_group_index() as int == gi && final(self).spec_cue_index() as int == ci
                } else if ci < gs[gi].cues.len() {
                    (r matches Some(p) && p.0@ == gs[gi].name && p.1@ == gs[gi].cues[ci])
                        && final(self).spec_group_index() as int == gi && final(self).spec_cue_index() as int == ci
                } else if gi + 1 < gs.len() && gs[gi + 1].cues.len() > 0 {
                    (r matches Some(p) && p.0@ == gs[gi + 1].name && p.1@ == gs[gi + 1].cues[0])
                        && final(self).spec_group_index() as int == gi + 1 && final(self).spec_cue_index() == 0
                } else {
                    r is None && final(self).spec_group_index() as int == gi + 1 && final(self).spec_cue_index() == 0
                }
            }),
    {
        self.current_cue_index = self.current_cue_index.wrapping_add(1);

        if self.current_group_index >= self.cue_list_descriptor.groups.len() {
            return None;
        }
        let group = &self.cue_list_descriptor.groups[self.current_group_index];
        if self.current_cue_index < group.cues.len() {
            let ghost g = self.current_group_index as int;
            let ghost c = self.current_cue_index as int;
            proof {
                assert(self.spec_descriptor()[g].name == group@.name
                    && self.spec_descriptor()[g].cues[c] == group@.cues[c]);
            }
            return Some((group.name.clone(), group.cues[self.current_cue_index].clone()));
        }
        self.current_group_index = self.current_group_index + 1;
        self.current_cue_index = 0;
        if self.current_group_index < self.cue_list_descriptor.groups.len() {
            let group = &self.cue_list_descriptor.groups[self.current_group_index];
            if group.cues.len() > 0 {
                let ghost g = self.current_group_index as int;
                proof {
                    assert(old(self).spec_descriptor() == self.spec_descriptor());
                    assert(self.spec_descriptor()[g].name == group@.name
                        && self.spec_descriptor()[g].cues[0] == group@.cues[0]);
                }
                return Some((group.name.clone(), group.cues[0].clone()));
            }
        }
        None
    }
}

/// The first group at or after `k` whose cue list holds the cue, if any.
pub open spec fn spec_find_cue_group(groups: Seq<CueGroupView>, cue: Seq<char>, k: int) -> Option<
    int,
>
    decreases groups.len() - k,
{
    if k < 0 || k >= groups.len() {
        None
    } else if groups[k].cues.contains(cue) {
        Some(k)
    } else {
        spec_find_cue_group(groups, cue, k + 1)
    }
}

pub proof fn lemma_find_cue_group(groups: Seq<CueGroupView>, cue: Seq<char>, k: int)
    requires
        0 <= k,
    ensures
        spec_find_cue_group(groups, cue, k) matches Some(g) ==> k <= g < groups.len()
            && groups[g].cues.contains(cue),
        spec_find_cue_group(groups, cue, k) is None ==> forall|g: int|
            k <= g < groups.len() ==> !(#[trigger] groups[g]).cues.contains(cue),
    decreases groups.len() - k,
{
    if k < groups.len() && !groups[k].cues.contains(cue) {
        lemma_find_cue_group(groups, cue, k + 1);
    }
}

/// The property serialization needs: no group name and no cue name empty.
pub open spec fn spec_cue_groups_named(groups: Seq<CueGroupView>) -> bool {
    forall|g: int|
        0 <= g < groups.len() ==> (#[trigger] groups[g]).name.len() > 0 && (forall|c: int|
            0 <= c < groups[g].cues.len() ==> (#[trigger] groups[g].cues[c]).len() > 0)
}

impl AssetDescriptor for CueListDescriptor {
    open spec fn spec_asset_type() -> AssetType {
        AssetType::ResXCueList
    }

    /// As much as this line-based codec states of its parse: the grouping
    /// never produces a group without cues.  The byte-level content of this
    /// text format is not pinned here.
    open spec fn parsed_from(&self, data: Seq<u8>) -> bool {
        forall|g: int|
            0 <= g < self.spec_groups().len() ==> (#[trigger] self.spec_groups()[g]).cues.len()
                > 0
    }

    /// As much as this line-based codec states of its serialization: it
    /// succeeds only for fully named groups and cues.  The byte-level
    /// content of this text format is not pinned here.
    open spec fn serialized_to(&self, bytes: Seq<u8>) -> bool {
        spec_cue_groups_named(self.spec_groups())
    }

    /// Parses tab-separated lines, folding runs of lines that share a group
    /// name into one group; fails on bytes that are not UTF-8 and on a line
    /// without exactly one tab.
    fn from_bytes(data: &[u8]) -> Result<CueListDescriptor, AssetParseError> {
        let mut groups: Vec<CueGroup> = Vec::new();
        let mut group_name: Vec<u8> = Vec::new();
        let mut group_cues: Vec<String> = Vec::new();
        let mut started = false;

        let mut line_start: usize = 0;
        let mut pos: usize = 0;
        while pos < data.len()
            invariant
                0 <= line_start <= pos <= data@.len(),
                forall|k: int| 0 <= k < groups@.len() ==> (#[trigger] groups@[k])@.cues.len() > 0,
            decreases data@.len() - pos,
        {
            if data[pos] == 10 {
                if pos > line_start {
                    let line = vstd::slice::slice_subrange(data, line_start, pos);
                    match fold_line(line, &mut groups, &mut group_name, &mut group_cues, &mut started) {
                        Ok(()) => {},
                        Err(e) => {
                            return Err(e);
                        },
                    }
                }
                line_start = pos + 1;
            }
            pos = pos + 1;
        }
        if data.len() > line_start {
            let line = vstd::slice::slice_subrange(data, line_start, data.len());
            match fold_line(line, &mut groups, &mut group_name, &mut group_cues, &mut started) {
                Ok(()) => {},
                Err(e) => {
                    return Err(e);
                },
            }
        }
        if started && group_cues.len() > 0 {
            let finished_name = match crate::asset::utf8_owned(group_name.as_slice()) {
                Some(s) => s,
                None => {
                    return Err(AssetParseError::ErrorParsingDescriptor);
                },
            };
            let ghost prev = groups@;
            groups.push(CueGroup { name: finished_name, cues: group_cues });
            proof {
                assert(forall|k: int|
                    0 <= k < groups@.len() ==> (#[trigger] groups@[k])@.cues.len() > 0);
            }
        }
        let r = CueListDescriptor { groups };
        proof {
            assert(forall|g: int|
                0 <= g < r.spec_groups().len() ==> (#[trigger] r.spec_groups()[g]).cues.len()
                    > 0);
        }
        Ok(r)
    }

    /// Serializes the groups as tab-separated lines joined by newlines;
    /// fails when a group or cue name is empty.
    fn to_bytes(&self) -> Result<Vec<u8>, AssetParseError> {
        if !self.validate() {
            return Err(
                AssetParseError::InvalidDataViews(
                    "An empty group or cue name cannot be serialized.".to_owned(),
                ),
            );
        }
        proof {
            assert(spec_cue_groups_named(self.spec_groups()));
        }
        let mut out: Vec<u8> = Vec::new();
        let mut first = true;
        let mut g: usize = 0;
        while g < self.groups.len()
            invariant
                0 <= g <= self.groups@.len(),
            decreases self.groups@.len() - g,
        {
            let group = &self.groups[g];
            let name_bytes = group.name.as_str().as_bytes_vec();
            let mut c: usize = 0;
            while c < group.cues.len()
                invariant
                    0 <= c <= group.cues@.len(),
                decreases group.cues@.len() - c,
            {
                if !first {
                    out.push(10);
                }
                first = false;
                out.extend_from_slice(name_bytes.as_slice());
                out.push(9);
                let cue_bytes = group.cues[c].as_str().as_bytes_vec();
                out.extend_from_slice(cue_bytes.as_slice());
                c = c + 1;
            }
            g = g + 1;
        }
        Ok(out)
    }

    fn size(&self) -> usize {
        match self.to_bytes() {
            Ok(b) => b.len(),
            Err(_) => 0,
        }
    }

    fn asset_type() -> (r: AssetType) {
        AssetType::ResXCueList
    }
}

/// A cue-list asset: its descriptor plus its raw resource chunks.
#[derive(Debug, Clone)]
pub struct CueList {
    descriptor: CueListDescriptor,
    data: Vec<Vec<u8>>,
}

impl CueList {
    /// The raw resource chunks this cue list was read with.
    pub closed spec fn spec_data(&self) -> Seq<Seq<u8>> {
        self.data.deep_view()
    }

    /// The groups of this cue list's descriptor.
    pub closed spec fn spec_groups(&self) -> Seq<CueGroupView> {
        self.descriptor.spec_groups()
    }

    /// The descriptor of this cue list.
    pub fn descriptor(&self) -> (r: &CueListDescriptor)
        ensures
            r.spec_groups() == self.spec_groups(),
    {
        &self.descriptor
    }

    /// The chunks this cue list hands back for storage: none at all when it
    /// was read without a payload, never an empty list.
    pub fn chunks_opt(&self) -> (r: Option<Vec<Vec<u8>>>)
        ensures
            self.spec_data().len() == 0 <==> r is None,
            r matches Some(c) ==> c.deep_view() == self.spec_data(),
    {
        if self.data.len() == 0 {
            return None;
        }
        Some(crate::bnl::copy_chunks(&self.data))
    }
}

impl AssetLike for CueList {
    type Descriptor = CueListDescriptor;

    open spec fn spec_asset_type() -> AssetType {
        AssetType::ResXCueList
    }

    open spec fn built_from(&self, descriptor: CueListDescriptor, chunks: Seq<Seq<u8>>) -> bool {
        self.spec_groups() == descriptor.spec_groups() && self.spec_data() == chunks
    }

    open spec fn describes(&self, descriptor: CueListDescriptor) -> bool {
        descriptor.spec_groups() == self.spec_groups()
    }

    open spec fn spec_chunks(&self) -> Option<Seq<Seq<u8>>> {
        if self.spec_data().len() == 0 {
            None
        } else {
            Some(self.spec_data())
        }
    }

    fn new(descriptor: &CueListDescriptor, virtual_res: &VirtualResource) -> Result<
        CueList,
        AssetParseError,
    > {
        Ok(
            CueList {
                descriptor: CueListDescriptor { groups: clone_groups(&descriptor.groups) },
                data: virtual_res.chunk_copies(),
            },
        )
    }

    fn get_descriptor(&self) -> CueListDescriptor {
        CueListDescriptor { groups: clone_groups(&self.descriptor.groups) }
    }

    fn get_resource_chunks(&self) -> Option<Vec<Vec<u8>>> {
        self.chunks_opt()
    }

    fn asset_type() -> (r: AssetType) {
        AssetType::ResXCueList
    }
}

/// Copies a group list.
fn clone_groups(groups: &Vec<CueGroup>) -> (r: Vec<CueGroup>)
    ensures
        r.deep_view() =~~= groups.deep_view(),
{
    let mut out: Vec<CueGroup> = Vec::new();
    let mut i: usize = 0;
    while i < groups.len()
        invariant
            0 <= i <= groups@.len(),
            out.deep_view() =~~= groups.deep_view().take(i as int),
        decreases groups@.len() - i,
    {
        let ghost prev = out.deep_view();
        let g = &groups[i];
        let mut cues: Vec<String> = Vec::new();
        let mut c: usize = 0;
        while c < g.cues.len()
            invariant
                0 <= c <= g.cues@.len(),
                cues.deep_view() =~~= g.cues.deep_view().take(c as int),
            decreases g.cues@.len() - c,
        {
            let ghost pc = cues.deep_view();
            let s = g.cues[c].clone();
            cues.push(s);
            proof {
                assert(cues.deep_view() =~~= pc.push(s@));
                assert(cues.deep_view() =~~= g.cues.deep_view().take(c + 1));
            }
            c = c + 1;
        }
        proof {
            assert(cues.deep_view() =~~= g.cues.deep_view());
        }
        let copy = CueGroup { name: g.name.clone(), cues };
        proof {
            assert(copy@.name == g@.name);
            assert(copy@.cues =~~= g@.cues);
        }
        out.push(copy);
        proof {
            assert(out.deep_view() =~~= prev.push(copy@));
            assert(out.deep_view() =~~= groups.deep_view().take(i + 1));
        }
        i = i + 1;
    }
    proof {
        assert(out.deep_view() =~~= groups.deep_view());
    }
    out
}

/// Folds one nonempty "group<TAB>cue" line into the grouping state: a
/// finished group is flushed only with the cues it gathered, so every group
/// pushed here carries at least one cue.
fn fold_line(
    line: &[u8],
    groups: &mut Vec<CueGroup>,
    group_name: &mut Vec<u8>,
    group_cues: &mut Vec<String>,
    started: &mut bool,
) -> (r: Result<(), AssetParseError>)
    ensures
        final(groups)@.len() >= old(groups)@.len(),
        forall|k: int| 0 <= k < old(groups)@.len() ==> final(groups)@[k] == old(groups)@[k],
        forall|k: int|
            old(groups)@.len() <= k < final(groups)@.len() ==> (
            #[trigger] final(groups)@[k])@.cues.len() > 0,
{
    let mut tab_at: usize = 0;
    let mut tabs: usize = 0;
    let mut k: usize = 0;
    while k < line.len()
        invariant
            0 <= k <= line@.len(),
            tabs <= k,
            tab_at <= k,
            tabs >= 1 ==> tab_at < line@.len(),
        decreases line@.len() - k,
    {
        if line[k] == 9 {
            if tabs == 0 {
                tab_at = k;
            }
            tabs = tabs + 1;
        }
        k = k + 1;
    }
    if tabs != 1 {
        return Err(AssetParseError::ErrorParsingDescriptor);
    }
    let name_bytes = vstd::slice::slice_subrange(line, 0, tab_at);
    let cue_bytes = vstd::slice::slice_subrange(line, tab_at + 1, line.len());
    let name = match crate::asset::utf8_owned(name_bytes) {
        Some(s) => s,
        None => {
            return Err(AssetParseError::ErrorParsingDescriptor);
        },
    };
    let cue = match crate::asset::utf8_owned(cue_bytes) {
        Some(s) => s,
        None => {
            return Err(AssetParseError::ErrorParsingDescriptor);
        },
    };
    if !*started || !crate::asset::bytes_eq(group_name.as_slice(), name.as_str().as_bytes()) {
        if *started && group_cues.len() > 0 {
            let finished_name = match crate::asset::utf8_owned(group_name.as_slice()) {
                Some(s) => s,
                None => {
                    return Err(AssetParseError::ErrorParsingDescriptor);
                },
            };
            let mut cues: Vec<String> = Vec::new();
            let ghost before = group_cues@.len() + cues@.len();
            while group_cues.len() > 0
                invariant
                    group_cues@.len() + cues@.len() == before,
                decreases group_cues@.len(),
            {
                match group_cues.pop() {
                    Some(c) => {
                        cues.insert(0, c);
                    },
                    None => {},
                }
            }
            groups.push(CueGroup { name: finished_name, cues });
        } else if *started {
            group_cues.clear();
        }
        *group_name = name.as_str().as_bytes_vec();
        *started = true;
    }
    group_cues.push(cue);
    Ok(())
}

} // verus!
