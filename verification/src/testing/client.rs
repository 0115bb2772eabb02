//! Clients that only record what the compositor tells them.
use vstd::prelude::*;

use std::collections::VecDeque;

use crate::ewm::Ewm;
use crate::text::{digits, int_text, owned, signed_text, unsigned_text, views};

verus! {

/// Identifies a test client.
#[derive(Debug, Clone, Copy, PartialEq, Eq, Hash, Structural)]
pub struct ClientId(pub usize);

/// A configure event of a toplevel.
#[derive(Debug, Clone)]
pub struct ConfigureEvent {
    pub width: i32,
    pub height: i32,
    pub states: Vec<String>,
    pub serial: u32,
}

/// What a [`ConfigureEvent`] holds.
#[verifier::ext_equal]
pub struct ConfigureView {
    pub width: i32,
    pub height: i32,
    pub states: Seq<Seq<char>>,
    pub serial: u32,
}

impl View for ConfigureEvent {
    type V = ConfigureView;

    open spec fn view(&self) -> ConfigureView {
        ConfigureView {
            width: self.width,
            height: self.height,
            states: views(self.states@),
            serial: self.serial,
        }
    }
}

/// What a list of configure events holds.
pub open spec fn configure_views(v: Seq<ConfigureEvent>) -> Seq<ConfigureView> {
    Seq::new(v.len(), |i: int| v[i]@)
}

/// A surface of a test client.
#[derive(Debug)]
pub struct TestSurface {
    /// The id that the compositor gave it.
    pub id: u32,
    /// The configure events that it got, oldest first.
    pub configures: VecDeque<ConfigureEvent>,
    pub mapped: bool,
}

/// The text that `Debug` gives for a list of strings.
pub uninterp spec fn debug_strings_text(v: Seq<Seq<char>>) -> Seq<char>;

/// The `Debug` formatting of a list of strings, by `format!`: a function of
/// the strings alone.
#[verifier::external_body]
fn debug_strings(v: &Vec<String>) -> (r: String)
    ensures
        r@ == debug_strings_text(views(v@)),
{
    format!("{:?}", v)
}

/// One line about a configure event.
pub open spec fn configure_line(i: int, c: ConfigureView) -> Seq<char> {
    configure_text(i, c, debug_strings_text(c.states))
}

/// One line about a configure event, given the text of its states.
pub open spec fn configure_text(i: int, c: ConfigureView, states: Seq<char>) -> Seq<char> {
    "configure["@ + digits(i as nat) + "]: "@ + int_text(c.width as int) + "x"@ + int_text(
        c.height as int,
    ) + " states="@ + states + "\n"@
}

/// The lines about the first `n` configure events.
pub open spec fn configure_lines(v: Seq<ConfigureView>) -> Seq<char>
    decreases v.len(),
{
    if v.len() == 0 {
        Seq::empty()
    } else {
        configure_lines(v.drop_last()) + configure_line(v.len() - 1, v.last())
    }
}

/// One line about a configure event, given the text of its states.
pub fn format_configure(i: usize, width: i32, height: i32, states: &str) -> (r: String)
    ensures
        r@ == "configure["@ + digits(i as nat) + "]: "@ + int_text(width as int) + "x"@ + int_text(
            height as int,
        ) + " states="@ + states@ + "\n"@,
{
    let mut s: String = owned("configure[");
    s.append(unsigned_text(i as u64).as_str());
    s.append("]: ");
    s.append(signed_text(width as i64).as_str());
    s.append("x");
    s.append(signed_text(height as i64).as_str());
    s.append(" states=");
    s.append(states);
    s.append("\n");
    s
}

impl TestSurface {
    /// A surface that got no configure event.
    pub fn new(id: u32) -> (r: TestSurface)
        ensures
            r.id == id,
            r.configures@ == Seq::<ConfigureEvent>::empty(),
            !r.mapped,
    {
        TestSurface { id, configures: VecDeque::new(), mapped: false }
    }

    /// The last configure event.
    pub fn last_configure(&self) -> (r: Option<&ConfigureEvent>)
        ensures
            match r {
                Some(c) => self.configures@.len() > 0 && *c == self.configures@.last(),
                None => self.configures@.len() == 0,
            },
    {
        let n: usize = self.configures.len();
        if n == 0 {
            None
        } else {
            Some(&self.configures[n - 1])
        }
    }

    /// The configure events as lines of text.
    pub fn format_configures(&self) -> (r: String)
        ensures
            r@ == configure_lines(configure_views(self.configures@)),
    {
        let ghost all = configure_views(self.configures@);
        let mut output: String = String::new();
        let n: usize = self.configures.len();
        let mut i: usize = 0;
        proof {
            assert(all.take(0) =~= Seq::<ConfigureView>::empty());
        }
        while i < n
            invariant
                n == self.configures@.len(),
                i <= n,
                all == configure_views(self.configures@),
                output@ == configure_lines(all.take(i as int)),
            decreases n - i,
        {
            let c: &ConfigureEvent = &self.configures[i];
            proof {
                assert(all.take(i + 1).drop_last() =~= all.take(i as int));
                assert(all.take(i + 1).last() == c@);
            }
            let states: String = debug_strings(&c.states);
            output.append(format_configure(i, c.width, c.height, states.as_str()).as_str());
            i += 1;
        }
        proof {
            assert(all.take(n as int) =~= all);
        }
        output
    }
}

/// A client that only records what the compositor tells it.
#[derive(Debug)]
pub struct TestClient {
    pub id: ClientId,
    pub surfaces: Vec<TestSurface>,
    /// How many surfaces it asked for.
    pub next_surface_id: usize,
}

/// Position of the first surface with this id.
pub open spec fn surface_index(v: Seq<TestSurface>, id: u32) -> Option<int>
    decreases v.len(),
{
    if v.len() == 0 {
        None
    } else {
        match surface_index(v.drop_last(), id) {
            Some(i) => Some(i),
            None => if v.last().id == id {
                Some(v.len() - 1)
            } else {
                None
            },
        }
    }
}

proof fn lemma_surface_index_longer(v: Seq<TestSurface>, id: u32, k: int)
    requires
        0 <= k <= v.len(),
        surface_index(v.take(k), id) is Some,
    ensures
        surface_index(v, id) == surface_index(v.take(k), id),
    decreases v.len() - k,
{
    if k < v.len() {
        assert(v.take(k + 1).drop_last() =~= v.take(k));
        lemma_surface_index_longer(v, id, k + 1);
    } else {
        assert(v.take(k) =~= v);
    }
}

/// How many of the surfaces the compositor, which gives the id `next` next,
/// has not registered yet.
pub open spec fn unregistered(v: Seq<TestSurface>, next: u32) -> nat
    decreases v.len(),
{
    if v.len() == 0 {
        0
    } else {
        unregistered(v.drop_last(), next) + if v.last().id >= next {
            1nat
        } else {
            0
        }
    }
}

proof fn lemma_unregistered_prefix(v: Seq<TestSurface>, next: u32, k: int)
    requires
        0 <= k <= v.len(),
    ensures
        unregistered(v.take(k), next) <= unregistered(v, next),
    decreases v.len() - k,
{
    if k < v.len() {
        lemma_unregistered_prefix(v, next, k + 1);
        assert(v.take(k + 1).drop_last() =~= v.take(k));
    } else {
        assert(v.take(k) =~= v);
    }
}

/// The surfaces of a client whose ids are those that the compositor, which
/// gives the id `next` next, gave or will give: no id stands twice, and those
/// that are still to come follow one another from `next` on.
pub open spec fn ids_foreseen(v: Seq<TestSurface>, next: u32) -> bool {
    &&& forall|i: int, j: int|
        0 <= i < j < v.len() ==> (#[trigger] v[i]).id != (#[trigger] v[j]).id
    &&& forall|i: int|
        0 <= i < v.len() ==> (#[trigger] v[i]).id < next + unregistered(v, next)
}

/// An id that no other surface has stands for at most one surface.
proof fn lemma_one_registered(v: Seq<TestSurface>, next: u32)
    requires
        next < u32::MAX,
        forall|i: int, j: int|
            0 <= i < j < v.len() ==> (#[trigger] v[i]).id != (#[trigger] v[j]).id,
    ensures
        unregistered(v, next) <= unregistered(v, (next + 1) as u32) + 1,
        (forall|i: int| 0 <= i < v.len() ==> (#[trigger] v[i]).id != next) ==> unregistered(v, next)
            == unregistered(v, (next + 1) as u32),
    decreases v.len(),
{
    if v.len() > 0 {
        let w = v.drop_last();
        assert forall|i: int| 0 <= i < w.len() implies #[trigger] w[i] == v[i] by {
        }
        lemma_one_registered(w, next);
        if v.last().id == next {
            assert forall|i: int| 0 <= i < w.len() implies (#[trigger] w[i]).id != next by {
                assert(v[i].id != v[v.len() - 1].id);
            }
        } else if forall|i: int| 0 <= i < v.len() ==> (#[trigger] v[i]).id != next {
            assert forall|i: int| 0 <= i < w.len() implies (#[trigger] w[i]).id != next by {
                assert(v[i].id != next);
            }
        }
    }
}

/// Surfaces that the compositor registers meanwhile, of this client or of
/// others, leave the ids of a client as foreseen.
pub proof fn lemma_ids_stay_foreseen(v: Seq<TestSurface>, next: u32, later: u32)
    requires
        ids_foreseen(v, next),
        next <= later,
    ensures
        ids_foreseen(v, later),
    decreases later - next,
{
    if next < later {
        let step = (next + 1) as u32;
        lemma_one_registered(v, next);
        assert forall|i: int| 0 <= i < v.len() implies (#[trigger] v[i]).id < step + unregistered(
            v,
            step,
        ) by {
            assert(v[i].id < next + unregistered(v, next));
        }
        lemma_ids_stay_foreseen(v, step, later);
    }
}

/// The id of a new toplevel, `next` and one more for every surface of the
/// client that is not registered, is greater than the ids of all surfaces that
/// the client has, and with it the ids are as foreseen again: ids only grow,
/// and none is given twice.
pub proof fn lemma_new_id_is_new(v: Seq<TestSurface>, s: TestSurface, next: u32)
    requires
        ids_foreseen(v, next),
        s.id == next + unregistered(v, next),
    ensures
        forall|i: int| 0 <= i < v.len() ==> (#[trigger] v[i]).id < s.id,
        surface_index(v, s.id) is None,
        surface_index(v.push(s), s.id) == Some(v.len() as int),
        unregistered(v.push(s), next) == unregistered(v, next) + 1,
        ids_foreseen(v.push(s), next),
{
    let w = v.push(s);
    assert(w.drop_last() =~= v);
    lemma_surface_index(v, s.id);
    assert forall|i: int, j: int| 0 <= i < j < w.len() implies (#[trigger] w[i]).id != (
    #[trigger] w[j]).id by {
        assert(w[i] == v[i]);
        if j < v.len() {
            assert(w[j] == v[j]);
        }
    }
    assert forall|i: int| 0 <= i < w.len() implies (#[trigger] w[i]).id < next + unregistered(
        w,
        next,
    ) by {
        if i < v.len() {
            assert(w[i] == v[i]);
        }
    }
}

/// Two toplevels that a client asks for get different ids, and each is found
/// by its own, whatever the compositor registered between the two calls: `a`
/// is the first, asked for when `next` was the next id, and `b` the second,
/// when it was `later`.
pub proof fn lemma_two_toplevels(
    v: Seq<TestSurface>,
    a: TestSurface,
    b: TestSurface,
    next: u32,
    later: u32,
)
    requires
        ids_foreseen(v, next),
        next <= later,
        a.id == next + unregistered(v, next),
        b.id == later + unregistered(v.push(a), later),
    ensures
        a.id < b.id,
        next == later ==> b.id == a.id + 1,
        surface_index(v.push(a).push(b), a.id) == Some(v.len() as int),
        surface_index(v.push(a).push(b), b.id) == Some(v.len() as int + 1),
        ids_foreseen(v.push(a).push(b), later),
{
    let w = v.push(a);
    lemma_new_id_is_new(v, a, next);
    lemma_ids_stay_foreseen(w, next, later);
    lemma_new_id_is_new(w, b, later);
    assert(w[v.len() as int] == a);
    assert(w.push(b).drop_last() =~= w);
}

impl TestClient {
    /// A client without surfaces.
    pub fn new(id: ClientId) -> (r: TestClient)
        ensures
            r.id == id,
            r.surfaces@ == Seq::<TestSurface>::empty(),
            r.next_surface_id == 0,
    {
        TestClient { id, surfaces: Vec::new(), next_surface_id: 0 }
    }

    /// Asks for a toplevel, and gives the id that the compositor will give
    /// it: the first id that is still free once the surfaces that this client
    /// asked for before have got theirs.
    pub fn create_toplevel(&mut self, ewm: &Ewm) -> (r: u32)
        requires
            ewm@.next_surface_id + unregistered(old(self).surfaces@, ewm@.next_surface_id)
                <= u32::MAX,
            old(self).next_surface_id < usize::MAX,
        ensures
            r == ewm@.next_surface_id + unregistered(old(self).surfaces@, ewm@.next_surface_id),
            final(self).id == old(self).id,
            final(self).next_surface_id == old(self).next_surface_id + 1,
            final(self).surfaces@.len() == old(self).surfaces@.len() + 1,
            final(self).surfaces@.drop_last() == old(self).surfaces@,
            final(self).surfaces@.last().id == r,
            final(self).surfaces@.last().configures@ == Seq::<ConfigureEvent>::empty(),
            !final(self).surfaces@.last().mapped,
    {
        let first: u32 = ewm.next_surface_id;
        let mut id: u32 = first;
        let mut i: usize = 0;
        proof {
            assert(self.surfaces@.take(0) =~= Seq::<TestSurface>::empty());
        }
        while i < self.surfaces.len()
            invariant
                i <= self.surfaces@.len(),
                first + unregistered(self.surfaces@, first) <= u32::MAX,
                id == first + unregistered(self.surfaces@.take(i as int), first),
            decreases self.surfaces@.len() - i,
        {
            proof {
                assert(self.surfaces@.take(i + 1).drop_last() =~= self.surfaces@.take(i as int));
                lemma_unregistered_prefix(self.surfaces@, first, i + 1);
            }
            if self.surfaces[i].id >= first {
                id += 1;
            }
            i += 1;
        }
        proof {
            assert(self.surfaces@.take(i as int) =~= self.surfaces@);
        }
        self.surfaces.push(TestSurface::new(id));
        self.next_surface_id += 1;
        proof {
            assert(self.surfaces@.drop_last() =~= old(self).surfaces@);
        }
        id
    }

    fn find(&self, id: u32) -> (r: Option<usize>)
        ensures
            match r {
                Some(i) => i < self.surfaces@.len() && surface_index(self.surfaces@, id) == Some(
                    i as int,
                ),
                None => surface_index(self.surfaces@, id) is None,
            },
    {
        let mut i: usize = 0;
        proof {
            assert(self.surfaces@.take(0) =~= Seq::<TestSurface>::empty());
        }
        while i < self.surfaces.len()
            invariant
                i <= self.surfaces@.len(),
                surface_index(self.surfaces@.take(i as int), id) is None,
            decreases self.surfaces@.len() - i,
        {
            proof {
                assert(self.surfaces@.take(i + 1).drop_last() =~= self.surfaces@.take(i as int));
            }
            if self.surfaces[i].id == id {
                proof {
                    lemma_surface_index_longer(self.surfaces@, id, i + 1);
                }
                return Some(i);
            }
            i += 1;
        }
        proof {
            assert(self.surfaces@.take(i as int) =~= self.surfaces@);
        }
        None
    }

    /// The surface with this id.
    pub fn get_surface(&self, id: u32) -> (r: Option<&TestSurface>)
        ensures
            match surface_index(self.surfaces@, id) {
                Some(i) => r == Some(&self.surfaces@[i]),
                None => r is None,
            },
    {
        match self.find(id) {
            Some(i) => Some(&self.surfaces[i]),
            None => None,
        }
    }

    /// The surface with this id, for changes.
    pub fn get_surface_mut(&mut self, id: u32) -> (r: Option<&mut TestSurface>)
        ensures
            match surface_index(old(self).surfaces@, id) {
                Some(i) => r matches Some(s) && *s == old(self).surfaces@[i] && final(
                    self).surfaces@ == old(self).surfaces@.update(i, *final(s)) && final(self).id
                    == old(self).id && final(self).next_surface_id == old(self).next_surface_id,
                None => r is None && *final(self) == *old(self),
            },
    {
        match self.find(id) {
            Some(i) => Some(&mut self.surfaces[i]),
            None => None,
        }
    }

    /// Records a configure event of a surface; nothing happens where there is
    /// no such surface.
    pub fn record_configure(&mut self, surface_id: u32, event: ConfigureEvent)
        ensures
            final(self).id == old(self).id,
            match surface_index(old(self).surfaces@, surface_id) {
                Some(i) => {
                    &&& final(self).surfaces@.len() == old(self).surfaces@.len()
                    &&& final(self).surfaces@[i].configures@ == old(
                        self).surfaces@[i].configures@.push(event)
                    &&& final(self).surfaces@[i].id == surface_id
                    &&& final(self).surfaces@[i].mapped == old(self).surfaces@[i].mapped
                    &&& final(self).next_surface_id == old(self).next_surface_id
                    &&& forall|j: int|
                        0 <= j < old(self).surfaces@.len() && j != i ==> #[trigger] final(
                            self).surfaces@[j] == old(self).surfaces@[j]
                },
                None => *final(self) == *old(self),
            },
    {
        proof {
            lemma_surface_index(self.surfaces@, surface_id);
        }
        if let Some(surface) = self.get_surface_mut(surface_id) {
            surface.configures.push_back(event);
        }
    }

    /// All surfaces.
    pub fn surfaces(&self) -> (r: &Vec<TestSurface>)
        ensures
            r@ == self.surfaces@,
    {
        &self.surfaces
    }

    /// How many surfaces there are.
    pub fn surface_count(&self) -> (r: usize)
        ensures
            r == self.surfaces@.len(),
    {
        self.surfaces.len()
    }
}

/// A position found is that of a surface with the id.
pub proof fn lemma_surface_index(v: Seq<TestSurface>, id: u32)
    ensures
        match surface_index(v, id) {
            Some(i) => 0 <= i < v.len() && v[i].id == id,
            None => forall|j: int| 0 <= j < v.len() ==> (#[trigger] v[j]).id != id,
        },
    decreases v.len(),
{
    if v.len() > 0 {
        lemma_surface_index(v.drop_last(), id);
        assert forall|j: int| 0 <= j < v.len() - 1 implies #[trigger] v[j] == v.drop_last()[j] by {
        }
    }
}

/// The clients of a fixture.
#[derive(Debug)]
pub struct ClientManager {
    pub clients: Vec<TestClient>,
    pub next_client_id: usize,
}

/// Position of the first client with this id.
pub open spec fn client_index(v: Seq<TestClient>, id: ClientId) -> Option<int>
    decreases v.len(),
{
    if v.len() == 0 {
        None
    } else {
        match client_index(v.drop_last(), id) {
            Some(i) => Some(i),
            None => if v.last().id == id {
                Some(v.len() - 1)
            } else {
                None
            },
        }
    }
}

proof fn lemma_client_index_longer(v: Seq<TestClient>, id: ClientId, k: int)
    requires
        0 <= k <= v.len(),
        client_index(v.take(k), id) is Some,
    ensures
        client_index(v, id) == client_index(v.take(k), id),
    decreases v.len() - k,
{
    if k < v.len() {
        assert(v.take(k + 1).drop_last() =~= v.take(k));
        lemma_client_index_longer(v, id, k + 1);
    } else {
        assert(v.take(k) =~= v);
    }
}

/// How many surfaces the clients have together.
pub open spec fn surface_total(v: Seq<TestClient>) -> nat
    decreases v.len(),
{
    if v.len() == 0 {
        0
    } else {
        surface_total(v.drop_last()) + v.last().surfaces@.len()
    }
}

proof fn lemma_surface_total_prefix(v: Seq<TestClient>, k: int)
    requires
        0 <= k <= v.len(),
    ensures
        surface_total(v.take(k)) <= surface_total(v),
    decreases v.len() - k,
{
    if k < v.len() {
        lemma_surface_total_prefix(v, k + 1);
        assert(v.take(k + 1).drop_last() =~= v.take(k));
    } else {
        assert(v.take(k) =~= v);
    }
}

impl ClientManager {
    /// No clients.
    pub fn new() -> (r: ClientManager)
        ensures
            r.clients@ == Seq::<TestClient>::empty(),
            r.next_client_id == 0,
    {
        ClientManager { clients: Vec::new(), next_client_id: 0 }
    }

    /// Adds a client. Ids count up from 0.
    pub fn add_client(&mut self) -> (r: ClientId)
        requires
            old(self).next_client_id < usize::MAX,
        ensures
            r == ClientId(old(self).next_client_id),
            final(self).next_client_id == old(self).next_client_id + 1,
            final(self).clients@.len() == old(self).clients@.len() + 1,
            final(self).clients@.drop_last() == old(self).clients@,
            final(self).clients@.last().id == r,
            final(self).clients@.last().surfaces@ == Seq::<TestSurface>::empty(),
            final(self).clients@.last().next_surface_id == 0,
    {
        let id: ClientId = ClientId(self.next_client_id);
        self.next_client_id += 1;
        self.clients.push(TestClient::new(id));
        proof {
            assert(self.clients@.drop_last() =~= old(self).clients@);
        }
        id
    }

    fn find(&self, id: ClientId) -> (r: Option<usize>)
        ensures
            match r {
                Some(i) => i < self.clients@.len() && client_index(self.clients@, id) == Some(
                    i as int,
                ),
                None => client_index(self.clients@, id) is None,
            },
    {
        let mut i: usize = 0;
        proof {
            assert(self.clients@.take(0) =~= Seq::<TestClient>::empty());
        }
        while i < self.clients.len()
            invariant
                i <= self.clients@.len(),
                client_index(self.clients@.take(i as int), id) is None,
            decreases self.clients@.len() - i,
        {
            proof {
                assert(self.clients@.take(i + 1).drop_last() =~= self.clients@.take(i as int));
            }
            if self.clients[i].id == id {
                proof {
                    lemma_client_index_longer(self.clients@, id, i + 1);
                }
                return Some(i);
            }
            i += 1;
        }
        proof {
            assert(self.clients@.take(i as int) =~= self.clients@);
        }
        None
    }

    /// The client with this id.
    pub fn get_client(&self, id: ClientId) -> (r: Option<&TestClient>)
        ensures
            match client_index(self.clients@, id) {
                Some(i) => r == Some(&self.clients@[i]),
                None => r is None,
            },
    {
        match self.find(id) {
            Some(i) => Some(&self.clients[i]),
            None => None,
        }
    }

    /// The client with this id, for changes.
    pub fn get_client_mut(&mut self, id: ClientId) -> (r: Option<&mut TestClient>)
        ensures
            match client_index(old(self).clients@, id) {
                Some(i) => r matches Some(c) && *c == old(self).clients@[i] && final(
                    self).clients@ == old(self).clients@.update(i, *final(c)) && final(
                    self).next_client_id == old(self).next_client_id,
                None => r is None && *final(self) == *old(self),
            },
    {
        match self.find(id) {
            Some(i) => Some(&mut self.clients[i]),
            None => None,
        }
    }

    /// How many surfaces the clients have together.
    pub fn total_surfaces(&self) -> (r: usize)
        requires
            surface_total(self.clients@) <= usize::MAX,
        ensures
            r == surface_total(self.clients@),
    {
        let mut total: usize = 0;
        let mut i: usize = 0;
        proof {
            assert(self.clients@.take(0) =~= Seq::<TestClient>::empty());
        }
        while i < self.clients.len()
            invariant
                i <= self.clients@.len(),
                surface_total(self.clients@) <= usize::MAX,
                total == surface_total(self.clients@.take(i as int)),
            decreases self.clients@.len() - i,
        {
            proof {
                assert(self.clients@.take(i + 1).drop_last() =~= self.clients@.take(i as int));
                assert(self.clients@.take(i + 1).last() == self.clients@[i as int]);
                lemma_surface_total_prefix(self.clients@, i + 1);
            }
            total += self.clients[i].surface_count();
            i += 1;
        }
        proof {
            assert(self.clients@.take(i as int) =~= self.clients@);
        }
        total
    }
}

impl Default for ClientManager {
    fn default() -> (r: ClientManager)
        ensures
            r.clients@ == Seq::<TestClient>::empty(),
            r.next_client_id == 0,
    {
        ClientManager::new()
    }
}

/// The id of an added client is found again, where it was not taken before.
pub proof fn lemma_added_client_is_found(before: Seq<TestClient>, c: TestClient)
    requires
        client_index(before, c.id) is None,
    ensures
        client_index(before.push(c), c.id) == Some(before.len() as int),
{
    assert(before.push(c).drop_last() =~= before);
}

/// Whether the ids of all clients were given before `next`.
pub open spec fn client_ids_below(v: Seq<TestClient>, next: usize) -> bool {
    forall|i: int| 0 <= i < v.len() ==> (#[trigger] v[i]).id.0 < next
}

/// A client that is added under the next id is the only one with it, and the
/// clients that there were are found as before.
pub proof fn lemma_client_ids_grow(v: Seq<TestClient>, c: TestClient, other: ClientId)
    requires
        client_ids_below(v, c.id.0),
        c.id.0 < usize::MAX,
    ensures
        client_index(v.push(c), c.id) == Some(v.len() as int),
        other != c.id ==> client_index(v.push(c), other) == client_index(v, other),
        client_ids_below(v.push(c), (c.id.0 + 1) as usize),
{
    assert(v.push(c).drop_last() =~= v);
    lemma_client_index(v, c.id);
    assert forall|i: int| 0 <= i < v.push(c).len() implies (#[trigger] v.push(c)[i]).id.0 < c.id.0
        + 1 by {
        if i < v.len() {
            assert(v.push(c)[i] == v[i]);
        }
    }
}

proof fn lemma_client_index(v: Seq<TestClient>, id: ClientId)
    requires
        client_ids_below(v, id.0),
    ensures
        client_index(v, id) is None,
    decreases v.len(),
{
    if v.len() > 0 {
        let w = v.drop_last();
        assert forall|i: int| 0 <= i < w.len() implies (#[trigger] w[i]).id.0 < id.0 by {
            assert(w[i] == v[i]);
        }
        lemma_client_index(w, id);
        assert(v[v.len() - 1].id.0 < id.0);
    }
}

} // verus!
