//! Element identities and the paths under which the inspector lists them.
use crate::text;
use vstd::prelude::*;
use vstd::string::*;

verus! {

/// The identity of an element among its siblings.
#[derive(Debug, PartialEq, Eq)]
pub enum ElementId {
    /// The root element of the view with this entity number.
    View(u64),
    /// A number.
    Integer(u64),
    /// A name.
    Name(String),
    /// A UUID, in its textual form.
    Uuid(String),
    /// The element that owns the focus handle with this number.
    FocusHandle(u64),
    /// A name and a number.
    NamedInteger(String, u64),
    /// A file system path, in its displayed form.
    Path(String),
    /// The place in the source that created the element.
    CodeLocation { file: String, line: u32, column: u32 },
    /// A name below another identity.
    NamedChild(Box<ElementId>, String),
    /// An identity made of opaque bytes.
    OpaqueId([u8; 20]),
}

/// What an [`ElementId`] holds.
pub enum ElementIdView {
    View(u64),
    Integer(u64),
    Name(Seq<char>),
    Uuid(Seq<char>),
    FocusHandle(u64),
    NamedInteger(Seq<char>, u64),
    Path(Seq<char>),
    CodeLocation { file: Seq<char>, line: u32, column: u32 },
    NamedChild(Box<ElementIdView>, Seq<char>),
    OpaqueId(Seq<u8>),
}

impl ElementId {
    pub open spec fn contents(self) -> ElementIdView
        decreases self,
    {
        match self {
            ElementId::View(n) => ElementIdView::View(n),
            ElementId::Integer(n) => ElementIdView::Integer(n),
            ElementId::Name(name) => ElementIdView::Name(name@),
            ElementId::Uuid(uuid) => ElementIdView::Uuid(uuid@),
            ElementId::FocusHandle(n) => ElementIdView::FocusHandle(n),
            ElementId::NamedInteger(name, n) => ElementIdView::NamedInteger(name@, n),
            ElementId::Path(path) => ElementIdView::Path(path@),
            ElementId::CodeLocation { file, line, column } => ElementIdView::CodeLocation {
                file: file@,
                line,
                column,
            },
            ElementId::NamedChild(parent, name) => ElementIdView::NamedChild(
                Box::new(parent.contents()),
                name@,
            ),
            ElementId::OpaqueId(bytes) => ElementIdView::OpaqueId(bytes@),
        }
    }
}

impl View for ElementId {
    type V = ElementIdView;

    open spec fn view(&self) -> ElementIdView {
        self.contents()
    }
}

impl Clone for ElementId {
    fn clone(&self) -> (copy: Self)
        ensures
            copy@ == self@,
        decreases self,
    {
        match self {
            ElementId::View(n) => ElementId::View(*n),
            ElementId::Integer(n) => ElementId::Integer(*n),
            ElementId::Name(name) => ElementId::Name(name.clone()),
            ElementId::Uuid(uuid) => ElementId::Uuid(uuid.clone()),
            ElementId::FocusHandle(n) => ElementId::FocusHandle(*n),
            ElementId::NamedInteger(name, n) => ElementId::NamedInteger(name.clone(), *n),
            ElementId::Path(path) => ElementId::Path(path.clone()),
            ElementId::CodeLocation { file, line, column } => ElementId::CodeLocation {
                file: file.clone(),
                line: *line,
                column: *column,
            },
            ElementId::NamedChild(parent, name) => ElementId::NamedChild(
                Box::new((&**parent).clone()),
                name.clone(),
            ),
            ElementId::OpaqueId(bytes) => ElementId::OpaqueId(*bytes),
        }
    }
}

impl ElementId {
    /// Compares two identities.
    pub fn same(&self, other: &ElementId) -> (same: bool)
        ensures
            same == (self@ == other@),
        decreases self,
    {
        match (self, other) {
            (ElementId::View(a), ElementId::View(b)) => *a == *b,
            (ElementId::Integer(a), ElementId::Integer(b)) => *a == *b,
            (ElementId::Name(a), ElementId::Name(b)) => text::same_text(a, b),
            (ElementId::Uuid(a), ElementId::Uuid(b)) => text::same_text(a, b),
            (ElementId::FocusHandle(a), ElementId::FocusHandle(b)) => *a == *b,
            (ElementId::NamedInteger(a, m), ElementId::NamedInteger(b, n)) => *m == *n
                && text::same_text(a, b),
            (ElementId::Path(a), ElementId::Path(b)) => text::same_text(a, b),
            (
                ElementId::CodeLocation { file: a, line: l, column: c },
                ElementId::CodeLocation { file: b, line: m, column: d },
            ) => *l == *m && *c == *d && text::same_text(a, b),
            (ElementId::NamedChild(p, a), ElementId::NamedChild(q, b)) => p.same(q)
                && text::same_text(a, b),
            (ElementId::OpaqueId(a), ElementId::OpaqueId(b)) => same_bytes(a, b),
            _ => false,
        }
    }
}

/// Compares two opaque identities.
fn same_bytes(a: &[u8; 20], b: &[u8; 20]) -> (same: bool)
    ensures
        same == (a@ == b@),
{
    let mut i: usize = 0;
    while i < 20
        invariant
            i <= 20,
            forall|j: int| 0 <= j < i ==> a@[j] == b@[j],
        decreases 20 - i,
    {
        if a[i] != b[i] {
            return false;
        }
        i = i + 1;
    }
    assert(a@ =~= b@);
    true
}

/// The identities from the root of the window down to an element.
#[derive(Debug, PartialEq, Eq)]
pub struct GlobalElementId(pub Vec<ElementId>);

impl View for GlobalElementId {
    type V = Seq<ElementIdView>;

    open spec fn view(&self) -> Seq<ElementIdView> {
        self.0@.map_values(|id: ElementId| id@)
    }
}

impl Clone for GlobalElementId {
    fn clone(&self) -> (copy: Self)
        ensures
            copy@ == self@,
    {
        let mut ids: Vec<ElementId> = Vec::new();
        let mut i: usize = 0;
        while i < self.0.len()
            invariant
                i <= self.0@.len(),
                ids@.len() == i,
                forall|j: int| 0 <= j < i ==> (#[trigger] ids@[j])@ == self.0@[j]@,
            decreases self.0@.len() - i,
        {
            ids.push(self.0[i].clone());
            i = i + 1;
        }
        let copy = GlobalElementId(ids);
        assert(copy@ =~= self@);
        copy
    }
}

impl GlobalElementId {
    /// Compares two paths of identities.
    pub fn same(&self, other: &GlobalElementId) -> (same: bool)
        ensures
            same == (self@ == other@),
    {
        if self.0.len() != other.0.len() {
            assert(self@.len() != other@.len());
            return false;
        }
        let mut i: usize = 0;
        while i < self.0.len()
            invariant
                self.0@.len() == other.0@.len(),
                i <= self.0@.len(),
                forall|j: int| 0 <= j < i ==> (#[trigger] self.0@[j])@ == other.0@[j]@,
            decreases self.0@.len() - i,
        {
            if !self.0[i].same(&other.0[i]) {
                assert(self@[i as int] != other@[i as int]);
                return false;
            }
            i = i + 1;
        }
        assert(self@ =~= other@);
        true
    }
}

/// How one identity reads in an inspector path.
pub open spec fn element_label(id: ElementIdView) -> Seq<char>
    decreases id,
{
    match id {
        ElementIdView::View(entity) => "view#"@ + text::decimal(entity as nat),
        ElementIdView::Integer(n) => text::decimal(n as nat),
        ElementIdView::Name(name) => name,
        ElementIdView::Uuid(uuid) => "uuid:"@ + uuid,
        ElementIdView::FocusHandle(_) => "focus"@,
        ElementIdView::NamedInteger(name, n) => name + "["@ + text::decimal(n as nat) + "]"@,
        ElementIdView::Path(path) => "path:"@ + path,
        ElementIdView::CodeLocation { file, line, .. } => "loc:"@ + file + ":"@ + text::decimal(
            line as nat,
        ),
        ElementIdView::NamedChild(parent, name) => element_label(*parent) + ":"@ + name,
        ElementIdView::OpaqueId(_) => "opaque"@,
    }
}

/// How a path of identities reads in the inspector: the labels joined by slashes.
pub open spec fn path_label(ids: Seq<ElementIdView>) -> Seq<char>
    decreases ids.len(),
{
    if ids.len() == 0 {
        Seq::empty()
    } else if ids.len() == 1 {
        element_label(ids[0])
    } else {
        path_label(ids.drop_last()) + "/"@ + element_label(ids.last())
    }
}

/// Appends the inspector label of an identity.
pub fn format_element_id(id: &ElementId, out: &mut String)
    ensures
        final(out)@ == old(out)@ + element_label(id@),
    decreases id,
{
    match id {
        ElementId::View(entity_id) => {
            out.append("view#");
            text::push_decimal(out, *entity_id);
        },
        ElementId::Integer(n) => {
            text::push_decimal(out, *n);
        },
        ElementId::Name(name) => {
            out.append(name.as_str());
        },
        ElementId::Uuid(uuid) => {
            out.append("uuid:");
            out.append(uuid.as_str());
        },
        ElementId::FocusHandle(_) => {
            out.append("focus");
        },
        ElementId::NamedInteger(name, n) => {
            out.append(name.as_str());
            out.append("[");
            text::push_decimal(out, *n);
            out.append("]");
        },
        ElementId::Path(path) => {
            out.append("path:");
            out.append(path.as_str());
        },
        ElementId::CodeLocation { file, line, .. } => {
            out.append("loc:");
            out.append(file.as_str());
            out.append(":");
            text::push_decimal(out, *line as u64);
        },
        ElementId::NamedChild(parent, name) => {
            format_element_id(parent, out);
            out.append(":");
            out.append(name.as_str());
        },
        ElementId::OpaqueId(_) => {
            out.append("opaque");
        },
    }
    assert(out@ =~= old(out)@ + element_label(id@));
}

/// Renders a path of identities for the inspector.
pub fn format_path(global_id: &GlobalElementId) -> (path: String)
    ensures
        path@ == path_label(global_id@),
{
    let mut out: String = String::new();
    let mut i: usize = 0;
    while i < global_id.0.len()
        invariant
            i <= global_id.0@.len(),
            out@ == path_label(global_id@.take(i as int)),
        decreases global_id.0@.len() - i,
    {
        if i > 0 {
            out.append("/");
        }
        format_element_id(&global_id.0[i], &mut out);
        proof {
            let longer = global_id@.take(i as int + 1);
            assert(longer.drop_last() =~= global_id@.take(i as int));
            assert(out@ =~= path_label(longer));
        }
        i = i + 1;
    }
    assert(global_id@.take(global_id@.len() as int) =~= global_id@);
    out
}

/// The path of a child is that of its parent, a slash and the label of the child.
pub proof fn child_path_extends_parent(parent: Seq<ElementIdView>, child: ElementIdView)
    requires
        parent.len() > 0,
    ensures
        path_label(parent.push(child)) == path_label(parent) + "/"@ + element_label(child),
{
    assert(parent.push(child).drop_last() =~= parent);
}

/// What kind of identity an element has can be told from how its label begins, and the label goes on
/// with what the identity holds.
pub proof fn labels_begin_with_their_kind(id: ElementIdView)
    ensures
        id matches ElementIdView::View(entity) ==> element_label(id) == "view#"@ + text::decimal(
            entity as nat,
        ),
        id matches ElementIdView::Integer(n) ==> element_label(id) == text::decimal(n as nat),
        id matches ElementIdView::Name(name) ==> element_label(id) == name,
        id matches ElementIdView::Uuid(uuid) ==> element_label(id) == "uuid:"@ + uuid,
        id is FocusHandle ==> element_label(id) == "focus"@,
        id is OpaqueId ==> element_label(id) == "opaque"@,
        id matches ElementIdView::Path(path) ==> element_label(id) == "path:"@ + path,
        id matches ElementIdView::NamedInteger(name, n) ==> element_label(id) == name + "["@
            + text::decimal(n as nat) + "]"@,
        id matches ElementIdView::CodeLocation { file, line, column } ==> element_label(id)
            == "loc:"@ + file + ":"@ + text::decimal(line as nat),
        id matches ElementIdView::NamedChild(parent, name) ==> element_label(id) == element_label(
            *parent,
        ) + ":"@ + name,
{
}

/// Every step of a path but the first stands behind one slash, and an element alone is its own path.
pub proof fn paths_join_their_steps(ids: Seq<ElementIdView>, id: ElementIdView)
    ensures
        path_label(Seq::empty()) == Seq::<char>::empty(),
        path_label(seq![id]) == element_label(id),
        ids.len() > 0 ==> path_label(ids.push(id)).len() == path_label(ids).len() + 1
            + element_label(id).len(),
        ids.len() > 0 ==> path_label(ids.push(id))[path_label(ids).len() as int] == '/',
        ids.len() > 0 ==> path_label(ids.push(id)).subrange(0, path_label(ids).len() as int)
            == path_label(ids),
        ids.len() > 0 ==> path_label(ids.push(id)).subrange(
            path_label(ids).len() as int + 1,
            path_label(ids.push(id)).len() as int,
        ) == element_label(id),
{
    reveal_strlit("/");
    if ids.len() > 0 {
        child_path_extends_parent(ids, id);
        let whole = path_label(ids.push(id));
        let n = path_label(ids).len() as int;
        assert(whole.subrange(0, n) =~= path_label(ids));
        assert(whole.subrange(n + 1, whole.len() as int) =~= element_label(id));
    }
}

/// An identity shows what it is made of.
pub proof fn identities_show_what_they_hold(id: ElementId)
    ensures
        id matches ElementId::View(n) ==> id@ == ElementIdView::View(n),
        id matches ElementId::Integer(n) ==> id@ == ElementIdView::Integer(n),
        id matches ElementId::Name(name) ==> id@ == ElementIdView::Name(name@),
        id matches ElementId::Uuid(uuid) ==> id@ == ElementIdView::Uuid(uuid@),
        id matches ElementId::FocusHandle(n) ==> id@ == ElementIdView::FocusHandle(n),
        id matches ElementId::NamedInteger(name, n) ==> id@ == ElementIdView::NamedInteger(name@, n),
        id matches ElementId::Path(path) ==> id@ == ElementIdView::Path(path@),
        id matches ElementId::CodeLocation { file, line, column } ==> id@ == (
        ElementIdView::CodeLocation { file: file@, line, column }),
        id matches ElementId::NamedChild(parent, name) ==> id@ == ElementIdView::NamedChild(
            Box::new((*parent)@),
            name@,
        ),
        id matches ElementId::OpaqueId(bytes) ==> id@ == ElementIdView::OpaqueId(bytes@),
{
}

/// A path shows its steps in order, from the root down.
pub proof fn paths_show_their_steps(path: GlobalElementId, i: int)
    ensures
        path@.len() == path.0@.len(),
        0 <= i < path.0@.len() ==> path@[i] == path.0@[i]@,
{
}

} // verus!
