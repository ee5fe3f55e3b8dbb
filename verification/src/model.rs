//! The state of the front-end: the entries on the page, the filter, the two
//! input fields, and the step that each message makes.

use vstd::prelude::*;

use crate::schema::{Todo, TodoID, TodoView};

verus! {

/// Which entries the page shows.
#[derive(Clone, Copy, Debug, PartialEq, Eq, Structural)]
pub enum Filter {
    All,
    Active,
    Completed,
}

/// A todo on the page, and whether it is being edited.
#[derive(Debug)]
pub struct Entry {
    pub data: Todo,
    pub editing: bool,
}

/// An `Entry` as plain values.
pub struct EntryView {
    pub data: TodoView,
    pub editing: bool,
}

impl View for Entry {
    type V = EntryView;

    open spec fn view(&self) -> EntryView {
        EntryView { data: self.data@, editing: self.editing }
    }
}

/// A run of entries as plain values.
pub open spec fn entry_views(entries: Seq<Entry>) -> Seq<EntryView> {
    entries.map_values(|entry: Entry| entry@)
}

/// A run of todos as plain values.
pub open spec fn todo_views(todos: Seq<Todo>) -> Seq<TodoView> {
    todos.map_values(|todo: Todo| todo@)
}

/// Whether a filter lets an entry through.
pub open spec fn fits(filter: Filter, entry: EntryView) -> bool {
    match filter {
        Filter::All => true,
        Filter::Active => !entry.data.completed,
        Filter::Completed => entry.data.completed,
    }
}

/// The places of the entries that a filter lets through, in rising order.
/// The page numbers the entries that it shows from zero: the number of an
/// entry is its position in this sequence, not its place among all entries.
pub open spec fn shown(entries: Seq<EntryView>, filter: Filter) -> Seq<int>
    decreases entries.len(),
{
    if entries.len() == 0 {
        Seq::empty()
    } else if fits(filter, entries.last()) {
        shown(entries.drop_last(), filter).push(entries.len() - 1)
    } else {
        shown(entries.drop_last(), filter)
    }
}

/// Every shown place is a place of the list.
pub proof fn lemma_shown_bounds(entries: Seq<EntryView>, filter: Filter)
    ensures
        shown(entries, filter).len() <= entries.len(),
        forall|at: int|
            0 <= at < shown(entries, filter).len() ==> 0 <= #[trigger] shown(entries, filter)[at]
                < entries.len(),
    decreases entries.len(),
{
    if entries.len() > 0 {
        lemma_shown_bounds(entries.drop_last(), filter);
    }
}

/// What is shown of the first `count` entries is the beginning of what is
/// shown of all.
pub proof fn lemma_shown_prefix(entries: Seq<EntryView>, filter: Filter, count: int)
    requires
        0 <= count <= entries.len(),
    ensures
        shown(entries.take(count), filter).len() <= shown(entries, filter).len(),
        shown(entries.take(count), filter) == shown(entries, filter).take(
            shown(entries.take(count), filter).len() as int,
        ),
    decreases entries.len(),
{
    if count == entries.len() {
        assert(entries.take(count) == entries);
        assert(shown(entries, filter).take(shown(entries, filter).len() as int) == shown(
            entries,
            filter,
        ));
    } else {
        let front = entries.drop_last();
        assert(front.take(count) == entries.take(count));
        lemma_shown_prefix(front, filter, count);
        let part = shown(front.take(count), filter);
        assert(shown(front, filter).take(part.len() as int) == shown(entries, filter).take(
            part.len() as int,
        ));
    }
}

impl Filter {
    /// Whether the filter lets an entry through.
    pub fn fit(&self, entry: &Entry) -> (through: bool)
        ensures
            through == fits(*self, entry@),
    {
        match self {
            Filter::All => true,
            Filter::Active => !entry.data.completed,
            Filter::Completed => entry.data.completed,
        }
    }

    /// The link that selects the filter.
    pub fn href(&self) -> (link: &'static str)
        ensures
            link@ == match *self {
                Filter::All => "#/"@,
                Filter::Active => "#/active"@,
                Filter::Completed => "#/completed"@,
            },
    {
        match self {
            Filter::All => "#/",
            Filter::Active => "#/active",
            Filter::Completed => "#/completed",
        }
    }

    /// The name of the filter, as the page prints it.
    pub fn to_string(&self) -> (name: String)
        ensures
            name@ == match *self {
                Filter::All => "All"@,
                Filter::Active => "Active"@,
                Filter::Completed => "Completed"@,
            },
    {
        match self {
            Filter::All => String::from_str("All"),
            Filter::Active => String::from_str("Active"),
            Filter::Completed => String::from_str("Completed"),
        }
    }

    /// The three filters, in the order in which the page lists them.
    pub fn variants() -> (filters: Vec<Filter>)
        ensures
            filters@ == seq![Filter::All, Filter::Active, Filter::Completed],
    {
        let mut filters: Vec<Filter> = Vec::new();
        filters.push(Filter::All);
        filters.push(Filter::Active);
        filters.push(Filter::Completed);
        filters
    }
}

/// What the page tells the model.
#[derive(Debug)]
pub enum Msg {
    /// The server's list has arrived.
    Load(Vec<Todo>),
    /// Add the text of the input field as a new todo.
    Add,
    /// Finish the edit of a shown entry with the text of the edit field.
    Edit(TodoID),
    /// The input field now holds this text.
    Update(String),
    /// The edit field now holds this text.
    UpdateEdit(String),
    /// Remove a shown entry.
    Remove(TodoID),
    /// Show other entries.
    SetFilter(Filter),
    /// Begin or leave the edit of a shown entry.
    ToggleEdit(TodoID),
    /// Tick or untick a shown entry.
    Toggle(TodoID),
    /// Nothing.
    Nope,
}

/// A `Msg` as plain values.
pub enum MsgView {
    Load(Seq<TodoView>),
    Add,
    Edit(nat),
    Update(Seq<char>),
    UpdateEdit(Seq<char>),
    Remove(nat),
    SetFilter(Filter),
    ToggleEdit(nat),
    Toggle(nat),
    Nope,
}

impl View for Msg {
    type V = MsgView;

    open spec fn view(&self) -> MsgView {
        match self {
            Msg::Load(todos) => MsgView::Load(todo_views(todos@)),
            Msg::Add => MsgView::Add,
            Msg::Edit(id) => MsgView::Edit(*id as nat),
            Msg::Update(text) => MsgView::Update(text@),
            Msg::UpdateEdit(text) => MsgView::UpdateEdit(text@),
            Msg::Remove(id) => MsgView::Remove(*id as nat),
            Msg::SetFilter(filter) => MsgView::SetFilter(*filter),
            Msg::ToggleEdit(id) => MsgView::ToggleEdit(*id as nat),
            Msg::Toggle(id) => MsgView::Toggle(*id as nat),
            Msg::Nope => MsgView::Nope,
        }
    }
}

/// What the model asks of the server.
#[derive(Debug)]
pub enum Request {
    /// Send the whole list.
    Retrieve,
    /// Append this todo.
    Create(Todo),
    /// Overwrite the todo at this index with this one.
    Update(TodoID, Todo),
    /// Delete the todo at this index.
    Delete(TodoID),
}

/// A `Request` as plain values.
pub enum RequestView {
    Retrieve,
    Create(TodoView),
    Update(nat, TodoView),
    Delete(nat),
}

impl View for Request {
    type V = RequestView;

    open spec fn view(&self) -> RequestView {
        match self {
            Request::Retrieve => RequestView::Retrieve,
            Request::Create(todo) => RequestView::Create(todo@),
            Request::Update(id, todo) => RequestView::Update(*id as nat, todo@),
            Request::Delete(id) => RequestView::Delete(*id as nat),
        }
    }
}

/// The state of the page.
pub struct Model {
    entries: Vec<Entry>,
    filter: Filter,
    new_description: String,
    edit_description: String,
}

/// A `Model` as plain values.
pub struct ModelView {
    pub entries: Seq<EntryView>,
    pub filter: Filter,
    pub new_description: Seq<char>,
    pub edit_description: Seq<char>,
}

/// The state in which the page starts: no entry, every entry shown, both
/// fields empty.
pub open spec fn initial() -> ModelView {
    ModelView {
        entries: Seq::empty(),
        filter: Filter::All,
        new_description: Seq::empty(),
        edit_description: Seq::empty(),
    }
}

/// Whether a message can be handled in a state: one that numbers an entry
/// must number a shown one.
pub open spec fn accepts(model: ModelView, msg: MsgView) -> bool {
    match msg {
        MsgView::Edit(id) => id < shown(model.entries, model.filter).len(),
        MsgView::Remove(id) => id < shown(model.entries, model.filter).len(),
        MsgView::ToggleEdit(id) => id < shown(model.entries, model.filter).len(),
        MsgView::Toggle(id) => id < shown(model.entries, model.filter).len(),
        _ => true,
    }
}

/// An entry with its tick flipped.
pub open spec fn ticked(entry: EntryView) -> EntryView {
    EntryView {
        data: TodoView { description: entry.data.description, completed: !entry.data.completed },
        editing: entry.editing,
    }
}

/// An entry that has begun or left its edit.
pub open spec fn switched(entry: EntryView) -> EntryView {
    EntryView { data: entry.data, editing: !entry.editing }
}

/// An entry whose edit has ended with a new text.
pub open spec fn rewritten(entry: EntryView, text: Seq<char>) -> EntryView {
    EntryView {
        data: TodoView { description: text, completed: entry.data.completed },
        editing: !entry.editing,
    }
}

/// A todo that has just come from the server, as an entry.
pub open spec fn fresh(todo: TodoView) -> EntryView {
    EntryView { data: todo, editing: false }
}

/// The state after a message.
pub open spec fn next(model: ModelView, msg: MsgView) -> ModelView {
    let places = shown(model.entries, model.filter);
    match msg {
        MsgView::Load(todos) => ModelView {
            entries: todos.map_values(|todo: TodoView| fresh(todo)),
            ..model
        },
        MsgView::Add => ModelView {
            entries: model.entries.push(
                fresh(TodoView { description: model.new_description, completed: false }),
            ),
            new_description: Seq::empty(),
            ..model
        },
        MsgView::Edit(id) => ModelView {
            entries: model.entries.update(
                places[id as int],
                rewritten(model.entries[places[id as int]], model.edit_description),
            ),
            edit_description: Seq::empty(),
            ..model
        },
        MsgView::Update(text) => ModelView { new_description: text, ..model },
        MsgView::UpdateEdit(text) => ModelView { edit_description: text, ..model },
        MsgView::Remove(id) => ModelView {
            entries: model.entries.remove(places[id as int]),
            ..model
        },
        MsgView::SetFilter(filter) => ModelView { filter, ..model },
        MsgView::ToggleEdit(id) => ModelView {
            entries: model.entries.update(
                places[id as int],
                switched(model.entries[places[id as int]]),
            ),
            edit_description: model.entries[places[id as int]].data.description,
            ..model
        },
        MsgView::Toggle(id) => ModelView {
            entries: model.entries.update(
                places[id as int],
                ticked(model.entries[places[id as int]]),
            ),
            ..model
        },
        MsgView::Nope => model,
    }
}

/// What a message asks of the server. The server knows a todo by its place
/// among all entries, so the index that goes to the server is the place of
/// the shown entry that the message numbers, and the todo that goes with it
/// is that entry's after the step.
pub open spec fn asked(model: ModelView, msg: MsgView) -> Option<RequestView> {
    let places = shown(model.entries, model.filter);
    match msg {
        MsgView::Add => Some(
            RequestView::Create(TodoView { description: model.new_description, completed: false }),
        ),
        MsgView::Edit(id) => Some(
            RequestView::Update(
                places[id as int] as nat,
                next(model, msg).entries[places[id as int]].data,
            ),
        ),
        MsgView::Remove(id) => Some(RequestView::Delete(places[id as int] as nat)),
        MsgView::Toggle(id) => Some(
            RequestView::Update(
                places[id as int] as nat,
                next(model, msg).entries[places[id as int]].data,
            ),
        ),
        _ => None,
    }
}

/// The place of the shown entry of a number, if the number is shown.
fn shown_place(entries: &Vec<Entry>, filter: Filter, id: usize) -> (place: Option<usize>)
    ensures
        match place {
            Some(place) => {
                &&& id < shown(entry_views(entries@), filter).len()
                &&& shown(entry_views(entries@), filter)[id as int] == place
                &&& place < entries.len()
            },
            None => id >= shown(entry_views(entries@), filter).len(),
        },
{
    let ghost views = entry_views(entries@);
    let mut seen: usize = 0;
    let mut i: usize = 0;
    assert(views.take(0) == Seq::<EntryView>::empty());
    while i < entries.len()
        invariant
            i <= entries.len(),
            views == entry_views(entries@),
            seen == shown(views.take(i as int), filter).len(),
            seen <= id,
            seen <= i,
        decreases entries.len() - i,
    {
        proof {
            let more = views.take(i + 1);
            assert(more.drop_last() == views.take(i as int));
            assert(more.last() == entries@[i as int]@);
        }
        if filter.fit(&entries[i]) {
            if seen == id {
                proof {
                    lemma_shown_prefix(views, filter, i + 1);
                    let part = shown(views.take(i + 1), filter);
                    assert(part[id as int] == i);
                    assert(part[id as int] == shown(views, filter).take(part.len() as int)[id as int]);
                }
                return Some(i);
            }
            seen += 1;
        }
        i += 1;
    }
    assert(views.take(entries.len() as int) == views);
    None
}

impl View for Model {
    type V = ModelView;

    closed spec fn view(&self) -> ModelView {
        ModelView {
            entries: entry_views(self.entries@),
            filter: self.filter,
            new_description: self.new_description@,
            edit_description: self.edit_description@,
        }
    }
}

impl Model {
    /// The state in which the page starts, and the request for the
    /// server's list that goes out with it.
    pub fn create() -> (start: (Model, Request))
        ensures
            start.0@ == initial(),
            start.1@ == RequestView::Retrieve,
    {
        let model = Model {
            entries: Vec::new(),
            filter: Filter::All,
            new_description: String::new(),
            edit_description: String::new(),
        };
        assert(entry_views(model.entries@) == Seq::<EntryView>::empty());
        (model, Request::Retrieve)
    }

    /// The entries, shown or not.
    pub fn entries(&self) -> (entries: &Vec<Entry>)
        ensures
            entry_views(entries@) == self@.entries,
    {
        &self.entries
    }

    /// The filter in force.
    pub fn filter(&self) -> (filter: Filter)
        ensures
            filter == self@.filter,
    {
        self.filter
    }

    /// The text of the input field.
    pub fn new_description(&self) -> (text: &str)
        ensures
            text@ == self@.new_description,
    {
        self.new_description.as_str()
    }

    /// The text of the edit field.
    pub fn edit_description(&self) -> (text: &str)
        ensures
            text@ == self@.edit_description,
    {
        self.edit_description.as_str()
    }

    /// The number of entries, shown or not.
    pub fn total(&self) -> (total: TodoID)
        ensures
            total == self@.entries.len(),
    {
        self.entries.len()
    }

    /// Whether a message can be handled in this state.
    pub fn accepts(&self, msg: &Msg) -> (ok: bool)
        ensures
            ok == accepts(self@, msg@),
    {
        match msg {
            Msg::Edit(id) => shown_place(&self.entries, self.filter, *id).is_some(),
            Msg::Remove(id) => shown_place(&self.entries, self.filter, *id).is_some(),
            Msg::ToggleEdit(id) => shown_place(&self.entries, self.filter, *id).is_some(),
            Msg::Toggle(id) => shown_place(&self.entries, self.filter, *id).is_some(),
            _ => true,
        }
    }

    /// Ticks or unticks the shown entry of a number.
    pub fn toggle(&mut self, id: TodoID)
        requires
            id < shown(old(self)@.entries, old(self)@.filter).len(),
        ensures
            final(self)@ == next(old(self)@, MsgView::Toggle(id as nat)),
    {
        let place = shown_place(&self.entries, self.filter, id).unwrap();
        let entry = &self.entries[place];
        let changed = Entry {
            data: Todo {
                description: entry.data.description.clone(),
                completed: !entry.data.completed,
            },
            editing: entry.editing,
        };
        self.entries.set(place, changed);
        assert(entry_views(self.entries@) == old(self)@.entries.update(
            place as int,
            ticked(old(self)@.entries[place as int]),
        ));
    }

    /// Begins or leaves the edit of the shown entry of a number.
    pub fn toggle_edit(&mut self, id: TodoID)
        requires
            id < shown(old(self)@.entries, old(self)@.filter).len(),
        ensures
            final(self)@.entries == old(self)@.entries.update(
                shown(old(self)@.entries, old(self)@.filter)[id as int],
                switched(
                    old(self)@.entries[shown(old(self)@.entries, old(self)@.filter)[id as int]],
                ),
            ),
            final(self)@.filter == old(self)@.filter,
            final(self)@.new_description == old(self)@.new_description,
            final(self)@.edit_description == old(self)@.edit_description,
    {
        let place = shown_place(&self.entries, self.filter, id).unwrap();
        let entry = &self.entries[place];
        let changed = Entry { data: entry.data.clone(), editing: !entry.editing };
        self.entries.set(place, changed);
        assert(entry_views(self.entries@) == old(self)@.entries.update(
            place as int,
            switched(old(self)@.entries[place as int]),
        ));
    }

    /// Ends the edit of the shown entry of a number with a new text.
    pub fn complete_edit(&mut self, id: TodoID, val: String)
        requires
            id < shown(old(self)@.entries, old(self)@.filter).len(),
        ensures
            final(self)@.entries == old(self)@.entries.update(
                shown(old(self)@.entries, old(self)@.filter)[id as int],
                rewritten(
                    old(self)@.entries[shown(old(self)@.entries, old(self)@.filter)[id as int]],
                    val@,
                ),
            ),
            final(self)@.filter == old(self)@.filter,
            final(self)@.new_description == old(self)@.new_description,
            final(self)@.edit_description == old(self)@.edit_description,
    {
        let place = shown_place(&self.entries, self.filter, id).unwrap();
        let entry = &self.entries[place];
        let changed = Entry {
            data: Todo { description: val, completed: entry.data.completed },
            editing: !entry.editing,
        };
        self.entries.set(place, changed);
        assert(entry_views(self.entries@) == old(self)@.entries.update(
            place as int,
            rewritten(old(self)@.entries[place as int], val@),
        ));
    }

    /// Removes the shown entry of a number.
    pub fn remove(&mut self, id: TodoID)
        requires
            id < shown(old(self)@.entries, old(self)@.filter).len(),
        ensures
            final(self)@ == next(old(self)@, MsgView::Remove(id as nat)),
    {
        let place = shown_place(&self.entries, self.filter, id).unwrap();
        self.entries.remove(place);
        assert(entry_views(self.entries@) == old(self)@.entries.remove(place as int));
    }

    /// Takes the step of a message and returns whether the page is to be
    /// drawn again, which it always is, and what is to be asked of the
    /// server.
    pub fn update(&mut self, msg: Msg) -> (step: (bool, Option<Request>))
        requires
            accepts(old(self)@, msg@),
        ensures
            final(self)@ == next(old(self)@, msg@),
            step.0,
            match step.1 {
                Some(request) => asked(old(self)@, msg@) == Some(request@),
                None => asked(old(self)@, msg@) is None,
            },
    {
        proof {
            lemma_shown_bounds(self@.entries, self@.filter);
        }
        let request = match msg {
            Msg::Load(todos) => {
                let mut entries: Vec<Entry> = Vec::new();
                let mut todos = todos;
                let ghost loaded = todo_views(todos@);
                let mut i: usize = 0;
                let count = todos.len();
                assert(entry_views(entries@) == loaded.take(0).map_values(
                    |todo: TodoView| fresh(todo),
                ));
                while i < count
                    invariant
                        i <= count,
                        count == todos.len(),
                        loaded == todo_views(todos@),
                        entry_views(entries@) == loaded.take(i as int).map_values(
                            |todo: TodoView| fresh(todo),
                        ),
                    decreases count - i,
                {
                    let ghost so_far = entry_views(entries@);
                    entries.push(Entry { data: todos[i].clone(), editing: false });
                    assert(entry_views(entries@) == so_far.push(fresh(loaded[i as int])));
                    i += 1;
                    assert(loaded.take(i as int).map_values(|todo: TodoView| fresh(todo))
                        == so_far.push(fresh(loaded[i - 1])));
                }
                assert(loaded.take(count as int) == loaded);
                self.entries = entries;
                None
            },
            Msg::Add => {
                let data = Todo { description: self.new_description.clone(), completed: false };
                let sent = data.clone();
                self.entries.push(Entry { data, editing: false });
                self.new_description = String::new();
                assert(entry_views(self.entries@) == old(self)@.entries.push(
                    fresh(
                        TodoView { description: old(self)@.new_description, completed: false },
                    ),
                ));
                Some(Request::Create(sent))
            },
            Msg::Edit(id) => {
                let place = shown_place(&self.entries, self.filter, id).unwrap();
                let text = self.edit_description.clone();
                self.complete_edit(id, text);
                self.edit_description = String::new();
                assert(entry_views(self.entries@).len() == old(self)@.entries.len());
                let sent = self.entries[place].data.clone();
                assert(sent@ == entry_views(self.entries@)[place as int].data);
                Some(Request::Update(place, sent))
            },
            Msg::Update(text) => {
                self.new_description = text;
                None
            },
            Msg::UpdateEdit(text) => {
                self.edit_description = text;
                None
            },
            Msg::Remove(id) => {
                let place = shown_place(&self.entries, self.filter, id).unwrap();
                self.remove(id);
                Some(Request::Delete(place))
            },
            Msg::SetFilter(filter) => {
                self.filter = filter;
                None
            },
            Msg::ToggleEdit(id) => {
                let place = shown_place(&self.entries, self.filter, id).unwrap();
                self.edit_description = self.entries[place].data.description.clone();
                self.toggle_edit(id);
                None
            },
            Msg::Toggle(id) => {
                let place = shown_place(&self.entries, self.filter, id).unwrap();
                self.toggle(id);
                assert(entry_views(self.entries@).len() == old(self)@.entries.len());
                let sent = self.entries[place].data.clone();
                assert(sent@ == entry_views(self.entries@)[place as int].data);
                Some(Request::Update(place, sent))
            },
            Msg::Nope => None,
        };
        (true, request)
    }
}

} // verus!
