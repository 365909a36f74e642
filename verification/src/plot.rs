//! The model behind a chart widget: the graphs it holds, their data, and
//! whether what is on screen is out of date.
//!
//! The widget itself is the caller's. It draws what the model holds whenever
//! the model was replotted.

use vstd::prelude::*;

verus! {

/// A chart as contracts see it.
pub ghost struct PlotState {
    /// The graphs in the order they were added, each a list of points: a key
    /// and a value, both binary64 bit patterns.
    pub graphs: Seq<Seq<(u64, u64)>>,
    /// Whether anything changed since the chart was last drawn.
    pub stale: bool,
}

/// The points that keys and values give, pair by pair, as far as both go.
pub open spec fn points(x: Seq<u64>, y: Seq<u64>) -> Seq<(u64, u64)> {
    Seq::new(
        if x.len() <= y.len() {
            x.len()
        } else {
            y.len()
        },
        |i: int| (x[i], y[i]),
    )
}

/// A chart of graphs.
#[derive(Debug)]
pub struct QCustomPlot {
    graphs: Vec<Vec<(u64, u64)>>,
    stale: bool,
}

impl View for QCustomPlot {
    type V = PlotState;

    closed spec fn view(&self) -> PlotState {
        PlotState { graphs: self.graphs@.map_values(|g: Vec<(u64, u64)>| g@), stale: self.stale }
    }
}

impl QCustomPlot {
    /// A chart without graphs, with nothing to draw.
    pub fn new() -> (plot: QCustomPlot)
        ensures
            plot@ == (PlotState { graphs: Seq::empty(), stale: false }),
    {
        let plot = QCustomPlot { graphs: Vec::new(), stale: false };
        assert(plot@.graphs =~= Seq::empty());
        plot
    }

    /// Adds an empty graph after those that are there.
    pub fn add_graph(&mut self)
        ensures
            final(self)@ == (PlotState {
                graphs: old(self)@.graphs.push(Seq::empty()),
                stale: true,
            }),
    {
        self.graphs.push(Vec::new());
        self.stale = true;
        assert(self@.graphs =~= old(self)@.graphs.push(Seq::empty()));
    }

    /// Gives the graph added last the points that `x` and `y` make, in place
    /// of those it had. A chart without graphs stays as it is.
    pub fn set_data(&mut self, x: &[u64], y: &[u64])
        ensures
            old(self)@.graphs.len() == 0 ==> final(self)@ == old(self)@,
            old(self)@.graphs.len() > 0 ==> final(self)@ == (PlotState {
                graphs: old(self)@.graphs.drop_last().push(points(x@, y@)),
                stale: true,
            }),
    {
        let count = self.graphs.len();
        if count == 0 {
            return ;
        }
        let n = if x.len() <= y.len() {
            x.len()
        } else {
            y.len()
        };
        let mut data: Vec<(u64, u64)> = Vec::new();
        let mut i: usize = 0;
        while i < n
            invariant
                i <= n,
                n <= x@.len(),
                n <= y@.len(),
                data@.len() == i,
                forall|k: int| 0 <= k < i ==> data@[k] == (x@[k], y@[k]),
            decreases n - i,
        {
            data.push((x[i], y[i]));
            i = i + 1;
        }
        assert(data@ =~= points(x@, y@));
        self.graphs.set(count - 1, data);
        self.stale = true;
        assert(self@.graphs =~= old(self)@.graphs.drop_last().push(points(x@, y@)));
    }

    /// Marks the chart as drawn: it is up to date until it next changes.
    pub fn replot(&mut self)
        ensures
            final(self)@ == (PlotState { stale: false, ..old(self)@ }),
    {
        self.stale = false;
    }

    /// The number of graphs.
    pub fn graph_count(&self) -> (n: usize)
        ensures
            n == self@.graphs.len(),
    {
        self.graphs.len()
    }

    /// Whether anything changed since the chart was last drawn.
    pub fn needs_replot(&self) -> (r: bool)
        ensures
            r == self@.stale,
    {
        self.stale
    }

    /// The number of points of the graph at `index`, if there is one.
    pub fn point_count(&self, index: usize) -> (n: Option<usize>)
        ensures
            index < self@.graphs.len() ==> n == Some(self@.graphs[index as int].len() as usize),
            index >= self@.graphs.len() ==> n is None,
    {
        if index < self.graphs.len() {
            Some(self.graphs[index].len())
        } else {
            None
        }
    }

    /// The point at `at` of the graph at `index`, if there is one.
    pub fn point(&self, index: usize, at: usize) -> (p: Option<(u64, u64)>)
        ensures
            index < self@.graphs.len() && at < self@.graphs[index as int].len() ==> p == Some(
                self@.graphs[index as int][at as int],
            ),
            !(index < self@.graphs.len() && at < self@.graphs[index as int].len()) ==> p is None,
    {
        if index < self.graphs.len() && at < self.graphs[index].len() {
            Some(self.graphs[index][at])
        } else {
            None
        }
    }
}

} // verus!
