use vstd::prelude::*;

verus! {

/// How much the service logs.
#[derive(Clone, Copy, Debug, PartialEq, Eq, Structural)]
pub enum LevelFilter {
    Off,
    Error,
    Warn,
    Info,
    Debug,
    Trace,
}

impl Default for LevelFilter {
    fn default() -> (r: LevelFilter)
        ensures
            r == LevelFilter::Info,
    {
        LevelFilter::Info
    }
}

/// A screen edge.
#[derive(Clone, Copy, Debug, PartialEq, Eq, Structural, Hash)]
pub enum Edge {
    Left,
    Right,
    Top,
    Bottom,
}

/// The spacing configured for an edge: the margin kept from it and the
/// padding added to that.
#[derive(Clone, Copy, Debug, PartialEq, Eq, Structural)]
pub struct EdgeInfo {
    pub margin: i32,
    pub padding: i32,
}

impl Default for EdgeInfo {
    fn default() -> (r: EdgeInfo)
        ensures
            r == (EdgeInfo { margin: 0, padding: 0 }),
    {
        EdgeInfo { margin: 0, padding: 0 }
    }
}

impl EdgeInfo {
    /// The whole distance from the edge: margin plus padding.
    pub fn total_margin(&self) -> (r: i32)
        requires
            i32::MIN <= self.margin + self.padding <= i32::MAX,
        ensures
            r == self.margin + self.padding,
    {
        self.margin + self.padding
    }
}

/// The edges that the stack is anchored to, each with its spacing.
#[derive(Clone, Copy, Debug, PartialEq, Eq, Structural)]
pub struct Edges {
    pub left: Option<EdgeInfo>,
    pub right: Option<EdgeInfo>,
    pub top: Option<EdgeInfo>,
    pub bottom: Option<EdgeInfo>,
}

/// The spacing of an edge, if the stack is anchored to it.
pub open spec fn edge_info(edges: Edges, edge: Edge) -> Option<EdgeInfo> {
    match edge {
        Edge::Left => edges.left,
        Edge::Right => edges.right,
        Edge::Top => edges.top,
        Edge::Bottom => edges.bottom,
    }
}

impl Edges {
    /// No edge.
    pub fn none() -> (r: Edges)
        ensures
            forall|e: Edge| edge_info(r, e) is None,
    {
        Edges { left: None, right: None, top: None, bottom: None }
    }

    /// The spacing of an edge, if the stack is anchored to it.
    pub fn get(&self, edge: Edge) -> (r: Option<EdgeInfo>)
        ensures
            r == edge_info(*self, edge),
    {
        match edge {
            Edge::Left => self.left,
            Edge::Right => self.right,
            Edge::Top => self.top,
            Edge::Bottom => self.bottom,
        }
    }

    /// Whether the stack is anchored to an edge.
    pub fn contains(&self, edge: Edge) -> (r: bool)
        ensures
            r == edge_info(*self, edge) is Some,
    {
        self.get(edge).is_some()
    }

    /// Anchors the stack to an edge with the given spacing.
    pub fn insert(&mut self, edge: Edge, info: EdgeInfo)
        ensures
            edge_info(*final(self), edge) == Some(info),
            forall|e: Edge| e != edge ==> edge_info(*final(self), e) == edge_info(*old(self), e),
    {
        match edge {
            Edge::Left => self.left = Some(info),
            Edge::Right => self.right = Some(info),
            Edge::Top => self.top = Some(info),
            Edge::Bottom => self.bottom = Some(info),
        }
    }
}

/// Whether a set of edges anchors two opposite ones.
pub open spec fn opposite_edges(edges: Edges) -> bool {
    (edges.left is Some && edges.right is Some) || (edges.top is Some && edges.bottom is Some)
}

/// The configuration of the service.
#[derive(Debug)]
pub struct Config {
    /// The default expiry, in milliseconds.
    pub expire_timeout: u64,
    pub icon_size: i32,
    pub log_level: LevelFilter,
    pub show_app_name: bool,
    /// The icon name of the close button.
    pub window_close_icon: String,
    /// Icon names that stand in for action keys, as `(key, icon)` pairs.
    pub icons_alias: Vec<(String, String)>,
    /// Whether the newest notification is stacked nearest the anchored edge.
    pub new_on_top: bool,
    pub window_size: (i32, i32),
    pub edges: Edges,
}

pub fn expire_timeout() -> (r: u64)
    ensures
        r == 5000,
{
    5000
}

pub fn new_on_top() -> (r: bool)
    ensures
        r,
{
    true
}

pub fn icon_size() -> (r: i32)
    ensures
        r == 72,
{
    72
}

pub fn log_level() -> (r: LevelFilter)
    ensures
        r == LevelFilter::Info,
{
    LevelFilter::Info
}

pub fn window_close_icon() -> (r: String)
    ensures
        r@ == "window-close"@,
{
    String::from_str("window-close")
}

pub fn show_app_name() -> (r: bool)
    ensures
        !r,
{
    false
}

pub fn window_size() -> (r: (i32, i32))
    ensures
        r == (410i32, 30i32),
{
    (410, 30)
}

pub fn icon_redefines() -> (r: Vec<(String, String)>)
    ensures
        r@.len() == 0,
{
    Vec::new()
}

/// The default anchoring: top edge with margin 5 and padding 5, right edge
/// with margin 5.
pub fn edges() -> (r: Edges)
    ensures
        r.top == Some(EdgeInfo { margin: 5, padding: 5 }),
        r.right == Some(EdgeInfo { margin: 5, padding: 0 }),
        r.left is None,
        r.bottom is None,
{
    Edges {
        left: None,
        right: Some(EdgeInfo { margin: 5, padding: 0 }),
        top: Some(EdgeInfo { margin: 5, padding: 5 }),
        bottom: None,
    }
}

impl Config {
    /// Whether the configuration can be used: it may not anchor two opposite
    /// edges.
    pub fn validate(&self) -> (r: bool)
        ensures
            r == !opposite_edges(self.edges),
    {
        !(self.edges.contains(Edge::Left) && self.edges.contains(Edge::Right)
            || self.edges.contains(Edge::Top) && self.edges.contains(Edge::Bottom))
    }

    /// The icon name drawn for an action key: its alias where one is set (the
    /// last one), else the key itself.
    pub fn icon_alias(&self, key: &str) -> (r: String)
        ensures
            r@ == alias_of(self.icons_alias@, key@),
    {
        let n = self.icons_alias.len();
        let mut i: usize = n;
        assert(self.icons_alias@.subrange(0, n as int) =~= self.icons_alias@);
        while i > 0
            invariant
                i <= n,
                n == self.icons_alias.len(),
                alias_of(self.icons_alias@, key@) == alias_of(
                    self.icons_alias@.subrange(0, i as int),
                    key@,
                ),
            decreases i,
        {
            let pair = &self.icons_alias[i - 1];
            assert(self.icons_alias@.subrange(0, i as int).drop_last() =~= self.icons_alias@.subrange(
                0,
                i - 1,
            ));
            if crate::text::text_eq(pair.0.as_str(), key) {
                return pair.1.clone();
            }
            i = i - 1;
        }
        String::from_str(key)
    }
}

/// The icon name for a key under a list of aliases: the last alias set for
/// it, else the key.
pub open spec fn alias_of(aliases: Seq<(String, String)>, key: Seq<char>) -> Seq<char>
    decreases aliases.len(),
{
    if aliases.len() == 0 {
        key
    } else if aliases.last().0@ == key {
        aliases.last().1@
    } else {
        alias_of(aliases.drop_last(), key)
    }
}

impl Default for Config {
    fn default() -> (r: Config)
        ensures
            r.expire_timeout == 5000,
            r.new_on_top,
            r.icon_size == 72,
            r.log_level == LevelFilter::Info,
            r.window_close_icon@ == "window-close"@,
            !r.show_app_name,
            r.window_size == (410i32, 30i32),
            r.icons_alias@.len() == 0,
            r.edges.top == Some(EdgeInfo { margin: 5, padding: 5 }),
            r.edges.right == Some(EdgeInfo { margin: 5, padding: 0 }),
            r.edges.left is None,
            r.edges.bottom is None,
    {
        Config {
            expire_timeout: expire_timeout(),
            new_on_top: new_on_top(),
            icon_size: icon_size(),
            log_level: log_level(),
            window_close_icon: window_close_icon(),
            show_app_name: show_app_name(),
            window_size: window_size(),
            icons_alias: icon_redefines(),
            edges: edges(),
        }
    }
}

} // verus!
