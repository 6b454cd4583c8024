//! The list of projects in the shape that the Alfred launcher reads.

use crate::text::{decimal, to_decimal};
use crate::toggl::{Project, ProjectView};
use vstd::prelude::*;

verus! {

/// The texts that Alfred copies or shows large for an item.
#[derive(Debug, Clone, PartialEq, Eq)]
pub struct AlfredText {
    pub copy: String,
    pub large_type: String,
}

/// One line of Alfred's result list.
#[derive(Debug, Clone, PartialEq, Eq)]
pub struct AlfredItem {
    pub title: String,
    pub subtitle: String,
    pub arg: String,
    pub text: AlfredText,
}

/// Alfred's result list.
#[derive(Debug, Clone, PartialEq, Eq)]
pub struct AlfredFormat {
    pub items: Vec<AlfredItem>,
}

/// An item, its texts as sequences of characters.
pub struct AlfredItemView {
    pub title: Seq<char>,
    pub subtitle: Seq<char>,
    pub arg: Seq<char>,
    pub copy: Seq<char>,
    pub large_type: Seq<char>,
}

impl View for AlfredItem {
    type V = AlfredItemView;

    open spec fn view(&self) -> AlfredItemView {
        AlfredItemView {
            title: self.title@,
            subtitle: self.subtitle@,
            arg: self.arg@,
            copy: self.text.copy@,
            large_type: self.text.large_type@,
        }
    }
}

impl View for AlfredFormat {
    type V = Seq<AlfredItemView>;

    open spec fn view(&self) -> Seq<AlfredItemView> {
        Seq::new(self.items@.len(), |i: int| self.items@[i]@)
    }
}

/// The item that stands for `project`: the name is shown and copied, the id
/// is shown below it and handed on as the argument.
pub open spec fn item_of(project: ProjectView) -> AlfredItemView {
    AlfredItemView {
        title: project.name,
        subtitle: decimal(project.id as nat),
        arg: decimal(project.id as nat),
        copy: project.name,
        large_type: project.name,
    }
}

impl AlfredItem {
    /// The item that stands for `project`.
    pub fn from_project(project: &Project) -> (r: Self)
        ensures
            r@ == item_of(project@),
    {
        Self {
            title: project.name.clone(),
            subtitle: to_decimal(project.id),
            arg: to_decimal(project.id),
            text: AlfredText { copy: project.name.clone(), large_type: project.name.clone() },
        }
    }
}

impl AlfredFormat {
    /// The result list that stands for `projects`, item by item in their
    /// order.
    pub fn from_projects(projects: &Vec<Project>) -> (r: Self)
        ensures
            r@ == Seq::new(projects@.len(), |i: int| item_of(projects@[i]@)),
    {
        let mut items: Vec<AlfredItem> = Vec::new();
        let mut i: usize = 0;
        while i < projects.len()
            invariant
                i <= projects.len(),
                items@.len() == i,
                forall|k: int| 0 <= k < i ==> (#[trigger] items@[k])@ == item_of(projects@[k]@),
            decreases projects.len() - i,
        {
            items.push(AlfredItem::from_project(&projects[i]));
            i = i + 1;
        }
        let r = Self { items };
        assert(r@ =~= Seq::new(projects@.len(), |i: int| item_of(projects@[i]@)));
        r
    }
}

} // verus!
