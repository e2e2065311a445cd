use vstd::prelude::*;
use vstd::std_specs::iter::IteratorSpec;

verus! {

/// The character that separates the segments of a path.
pub const SEPARATOR: char = '/';

/// The request methods that the routing table tells apart. Every method
/// without an entry of its own is `Other`.
#[derive(Debug, Clone, Copy, PartialEq, Eq, Structural)]
pub enum Method {
    Get,
    Post,
    Put,
    Delete,
    Other,
}

/// A request that the routing table matched: what is asked of the backend.
#[derive(Debug, Clone, PartialEq, Eq)]
pub enum Operation {
    /// `GET` on the collection.
    ListItems,
    /// `POST` on the collection.
    CreateItem,
    /// `GET` on one item.
    GetItem { id: String },
    /// `PUT` on one item.
    UpdateItem { id: String },
    /// `DELETE` on one item.
    DeleteItem { id: String },
}

/// What an `Operation` is in contracts: the same cases over sequences of
/// characters.
pub ghost enum OperationView {
    ListItems,
    CreateItem,
    GetItem { id: Seq<char> },
    UpdateItem { id: Seq<char> },
    DeleteItem { id: Seq<char> },
}

impl View for Operation {
    type V = OperationView;

    open spec fn view(&self) -> OperationView {
        match self {
            Operation::ListItems => OperationView::ListItems,
            Operation::CreateItem => OperationView::CreateItem,
            Operation::GetItem { id } => OperationView::GetItem { id: id@ },
            Operation::UpdateItem { id } => OperationView::UpdateItem { id: id@ },
            Operation::DeleteItem { id } => OperationView::DeleteItem { id: id@ },
        }
    }
}

/// Why no handler was found for a request.
#[derive(Debug, Clone, Copy, PartialEq, Eq, Structural)]
pub enum RouteError {
    /// The path has none of the known shapes.
    NoRoute,
    /// The path has a known shape, which has no entry for the method.
    MethodNotSupported,
}

/// The segments closed so far and the segment being read, after a scan of
/// `path` from its first character to its last.
pub open spec fn scan_path(path: Seq<char>) -> (Seq<Seq<char>>, Seq<char>)
    decreases path.len(),
{
    if path.len() == 0 {
        (Seq::empty(), Seq::empty())
    } else {
        let (closed, current) = scan_path(path.drop_last());
        if path.last() == SEPARATOR {
            (close_segment(closed, current), Seq::empty())
        } else {
            (closed, current.push(path.last()))
        }
    }
}

/// `closed` with `current` behind it, unless `current` is empty.
pub open spec fn close_segment(closed: Seq<Seq<char>>, current: Seq<char>) -> Seq<Seq<char>> {
    if current.len() > 0 {
        closed.push(current)
    } else {
        closed
    }
}

/// The non-empty pieces of `path` between separators, in order.
pub open spec fn path_segments(path: Seq<char>) -> Seq<Seq<char>> {
    let (closed, current) = scan_path(path);
    close_segment(closed, current)
}

/// True if no piece of `segments` is empty and none holds a separator.
pub open spec fn are_segments(segments: Seq<Seq<char>>) -> bool {
    forall|i: int|
        0 <= i < segments.len() ==> (#[trigger] segments[i]).len() > 0 && !segments[i].contains(
            SEPARATOR,
        )
}

/// The segments that a scan has closed are true segments, and the one that
/// it is reading holds no separator.
pub proof fn lemma_scan_yields_segments(path: Seq<char>)
    ensures
        are_segments(scan_path(path).0),
        !scan_path(path).1.contains(SEPARATOR),
    decreases path.len(),
{
    if path.len() > 0 {
        lemma_scan_yields_segments(path.drop_last());
        let (closed, current) = scan_path(path.drop_last());
        if path.last() != SEPARATOR {
            assert forall|i: int| 0 <= i < current.push(path.last()).len() implies current.push(
                path.last(),
            )[i] != SEPARATOR by {}
        }
    }
}

/// No segment of a path is empty, and none holds a separator.
pub proof fn lemma_segments_are_segments(path: Seq<char>)
    ensures
        are_segments(path_segments(path)),
{
    lemma_scan_yields_segments(path);
}

/// A path that ends in a separator has the segments of the path without it,
/// and so has a path that begins with one.
pub proof fn lemma_separators_at_the_ends(path: Seq<char>)
    ensures
        path_segments(path.push(SEPARATOR)) == path_segments(path),
        path_segments(seq![SEPARATOR] + path) == path_segments(path),
    decreases path.len(),
{
    assert(path.push(SEPARATOR).drop_last() =~= path);
    let slash = seq![SEPARATOR];
    assert(scan_path(slash + path) == scan_path(path)) by {
        lemma_leading_separator(path);
    }
}

/// A scan of a path that begins with a separator ends as the scan of the
/// path without it.
pub proof fn lemma_leading_separator(path: Seq<char>)
    ensures
        scan_path(seq![SEPARATOR] + path) == scan_path(path),
    decreases path.len(),
{
    let slash = seq![SEPARATOR];
    if path.len() == 0 {
        reveal_with_fuel(scan_path, 2);
    } else {
        lemma_leading_separator(path.drop_last());
        assert((slash + path).drop_last() =~= slash + path.drop_last());
    }
}

/// The views of the strings of `v`, in order.
pub open spec fn string_views(v: Seq<String>) -> Seq<Seq<char>> {
    v.map_values(|s: String| s@)
}

/// Splits `path` at its separators and drops the empty pieces that leading,
/// trailing and doubled separators leave.
pub fn split_path(path: &str) -> (segments: Vec<String>)
    ensures
        string_views(segments@) == path_segments(path@),
{
    broadcast use vstd::string::group_string_axioms;

    let mut closed: Vec<String> = Vec::new();
    let mut current = String::new();
    let mut chars = path.chars();
    let ghost mut seen: int = 0;
    loop
        invariant
            0 <= seen <= path@.len(),
            chars.obeys_prophetic_iter_laws(),
            chars.remaining() == path@.skip(seen),
            (string_views(closed@), current@) == scan_path(path@.take(seen)),
        decreases path@.len() - seen,
    {
        match chars.next() {
            Some(c) => {
                proof {
                    assert(path@.take(seen + 1).drop_last() =~= path@.take(seen));
                }
                if c == SEPARATOR {
                    if !current.as_str().is_empty() {
                        closed.push(current);
                    }
                    current = String::new();
                } else {
                    current.push(c);
                }
                proof {
                    seen = seen + 1;
                }
            },
            None => {
                proof {
                    assert(path@.take(seen) =~= path@);
                }
                if !current.as_str().is_empty() {
                    closed.push(current);
                }
                return closed;
            },
        }
    }
}

/// What the routing table of a collection named `collection` gives for a
/// method and the segments of a path.
pub open spec fn route_segments(
    collection: Seq<char>,
    method: Method,
    segments: Seq<Seq<char>>,
) -> Result<OperationView, RouteError> {
    if segments.len() == 0 || segments[0] != collection || segments.len() > 2 {
        Err(RouteError::NoRoute)
    } else if segments.len() == 2 {
        match method {
            Method::Put => Ok(OperationView::UpdateItem { id: segments[1] }),
            Method::Get => Ok(OperationView::GetItem { id: segments[1] }),
            Method::Delete => Ok(OperationView::DeleteItem { id: segments[1] }),
            _ => Err(RouteError::MethodNotSupported),
        }
    } else {
        match method {
            Method::Post => Ok(OperationView::CreateItem),
            Method::Get => Ok(OperationView::ListItems),
            _ => Err(RouteError::MethodNotSupported),
        }
    }
}

/// What the routing table of a collection named `collection` gives for a
/// method and a path.
pub open spec fn route_path(collection: Seq<char>, method: Method, path: Seq<char>) -> Result<
    OperationView,
    RouteError,
> {
    route_segments(collection, method, path_segments(path))
}

/// The view of a routing result: the operation by its view, the error as it is.
pub open spec fn route_result_view(r: Result<Operation, RouteError>) -> Result<
    OperationView,
    RouteError,
> {
    match r {
        Ok(op) => Ok(op@),
        Err(e) => Err(e),
    }
}

impl Method {
    /// The method that the name on a request line stands for.
    pub open spec fn of_name(name: Seq<char>) -> Method {
        if name == "GET"@ {
            Method::Get
        } else if name == "POST"@ {
            Method::Post
        } else if name == "PUT"@ {
            Method::Put
        } else if name == "DELETE"@ {
            Method::Delete
        } else {
            Method::Other
        }
    }

    /// Reads a method from its name as it stands on the request line. Names
    /// are matched with their case.
    pub fn from_name(name: &str) -> (m: Method)
        ensures
            m == Method::of_name(name@),
    {
        if *name == *"GET" {
            Method::Get
        } else if *name == *"POST" {
            Method::Post
        } else if *name == *"PUT" {
            Method::Put
        } else if *name == *"DELETE" {
            Method::Delete
        } else {
            Method::Other
        }
    }
}

/// The routing table of one collection: the collection's root and its items
/// are the only paths it knows. It is made once and never changed.
pub struct RouteTable {
    collection: String,
}

impl RouteTable {
    /// The routing table of the collection named `collection`.
    pub fn new(collection: String) -> (table: Self)
        ensures
            table.collection() == collection@,
    {
        RouteTable { collection }
    }

    /// The name of the collection, which is the first segment of every path
    /// that the table matches.
    pub closed spec fn collection(&self) -> Seq<char> {
        self.collection@
    }

    /// The name of the collection.
    pub fn collection_name(&self) -> (name: &str)
        ensures
            name@ == self.collection(),
    {
        self.collection.as_str()
    }

    /// Finds the operation that a method and a path ask for.
    pub fn route(&self, method: Method, path: &str) -> (r: Result<Operation, RouteError>)
        ensures
            route_result_view(r) == route_path(self.collection(), method, path@),
    {
        let mut segments = split_path(path);
        if segments.len() == 0 || segments.len() > 2 {
            return Err(RouteError::NoRoute);
        }
        if segments[0] != self.collection {
            return Err(RouteError::NoRoute);
        }
        if segments.len() == 2 {
            let id = segments.pop().unwrap();
            match method {
                Method::Put => Ok(Operation::UpdateItem { id }),
                Method::Get => Ok(Operation::GetItem { id }),
                Method::Delete => Ok(Operation::DeleteItem { id }),
                _ => Err(RouteError::MethodNotSupported),
            }
        } else {
            match method {
                Method::Post => Ok(Operation::CreateItem),
                Method::Get => Ok(Operation::ListItems),
                _ => Err(RouteError::MethodNotSupported),
            }
        }
    }
}

} // verus!
