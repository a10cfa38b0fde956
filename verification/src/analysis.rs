//! Which analysis steps a run of the machine-learning stage performs: each
//! enabled map comes from its model when the model file is present, and from
//! the stand-in otherwise, in the fixed order depth, edges, segmentation.

use vstd::prelude::*;

verus! {

/// One step of an analysis run.
#[derive(Debug, Clone, Copy, PartialEq, Eq, Structural)]
pub enum AnalysisStep {
    /// Depth-Anything depth estimation.
    DepthModel,
    /// The synthetic depth map used when the depth model is missing.
    DepthPlaceholder,
    /// Edge detection with the edge model.
    EdgeModel,
    /// The gradient edge map used when the edge model is missing.
    EdgePlaceholder,
    /// Foreground segmentation with the segmentation model.
    SegmentationModel,
    /// The all-foreground mask used when the segmentation model is missing.
    SegmentationPlaceholder,
}

/// The step for one map: none when disabled, else the model or its stand-in.
pub open spec fn step_for(enabled: bool, model_present: bool, model: AnalysisStep, stand_in: AnalysisStep) -> Seq<AnalysisStep> {
    if !enabled {
        Seq::empty()
    } else if model_present {
        seq![model]
    } else {
        seq![stand_in]
    }
}

/// The steps of a run, in order.
pub open spec fn analysis_steps(
    depth_enabled: bool,
    edges_enabled: bool,
    segmentation_enabled: bool,
    depth_model: bool,
    edge_model: bool,
    segmentation_model: bool,
) -> Seq<AnalysisStep> {
    step_for(depth_enabled, depth_model, AnalysisStep::DepthModel, AnalysisStep::DepthPlaceholder)
        + step_for(edges_enabled, edge_model, AnalysisStep::EdgeModel, AnalysisStep::EdgePlaceholder)
        + step_for(
        segmentation_enabled,
        segmentation_model,
        AnalysisStep::SegmentationModel,
        AnalysisStep::SegmentationPlaceholder,
    )
}

/// The machine-learning analysis of an input image.
pub struct MLAnalysis;

impl MLAnalysis {
    /// The steps that a run performs for the enabled maps, given which model
    /// files are present.
    pub fn plan(
        depth_enabled: bool,
        edges_enabled: bool,
        segmentation_enabled: bool,
        depth_model: bool,
        edge_model: bool,
        segmentation_model: bool,
    ) -> (steps: Vec<AnalysisStep>)
        ensures
            steps@ == analysis_steps(
                depth_enabled,
                edges_enabled,
                segmentation_enabled,
                depth_model,
                edge_model,
                segmentation_model,
            ),
            steps@.contains(AnalysisStep::DepthModel) <==> depth_enabled && depth_model,
            steps@.contains(AnalysisStep::DepthPlaceholder) <==> depth_enabled && !depth_model,
            steps@.contains(AnalysisStep::EdgeModel) <==> edges_enabled && edge_model,
            steps@.contains(AnalysisStep::EdgePlaceholder) <==> edges_enabled && !edge_model,
            steps@.contains(AnalysisStep::SegmentationModel) <==> segmentation_enabled && segmentation_model,
            steps@.contains(AnalysisStep::SegmentationPlaceholder) <==> segmentation_enabled && !segmentation_model,
    {
        let mut steps: Vec<AnalysisStep> = Vec::new();
        if depth_enabled {
            steps.push(if depth_model { AnalysisStep::DepthModel } else { AnalysisStep::DepthPlaceholder });
        }
        let ghost after_depth = steps@;
        if edges_enabled {
            steps.push(if edge_model { AnalysisStep::EdgeModel } else { AnalysisStep::EdgePlaceholder });
        }
        let ghost after_edges = steps@;
        if segmentation_enabled {
            steps.push(
                if segmentation_model {
                    AnalysisStep::SegmentationModel
                } else {
                    AnalysisStep::SegmentationPlaceholder
                },
            );
        }
        proof {
            let d = step_for(depth_enabled, depth_model, AnalysisStep::DepthModel, AnalysisStep::DepthPlaceholder);
            let e = step_for(edges_enabled, edge_model, AnalysisStep::EdgeModel, AnalysisStep::EdgePlaceholder);
            let s = step_for(
                segmentation_enabled,
                segmentation_model,
                AnalysisStep::SegmentationModel,
                AnalysisStep::SegmentationPlaceholder,
            );
            assert(after_depth =~= d);
            assert(after_edges =~= d + e);
            assert(steps@ =~= d + e + s);
            lemma_step_follows_its_own_model(
                depth_enabled,
                edges_enabled,
                segmentation_enabled,
                depth_model,
                edge_model,
                segmentation_model,
                AnalysisStep::DepthModel,
            );
            lemma_step_follows_its_own_model(
                depth_enabled,
                edges_enabled,
                segmentation_enabled,
                depth_model,
                edge_model,
                segmentation_model,
                AnalysisStep::DepthPlaceholder,
            );
            lemma_step_follows_its_own_model(
                depth_enabled,
                edges_enabled,
                segmentation_enabled,
                depth_model,
                edge_model,
                segmentation_model,
                AnalysisStep::EdgeModel,
            );
            lemma_step_follows_its_own_model(
                depth_enabled,
                edges_enabled,
                segmentation_enabled,
                depth_model,
                edge_model,
                segmentation_model,
                AnalysisStep::EdgePlaceholder,
            );
            lemma_step_follows_its_own_model(
                depth_enabled,
                edges_enabled,
                segmentation_enabled,
                depth_model,
                edge_model,
                segmentation_model,
                AnalysisStep::SegmentationModel,
            );
            lemma_step_follows_its_own_model(
                depth_enabled,
                edges_enabled,
                segmentation_enabled,
                depth_model,
                edge_model,
                segmentation_model,
                AnalysisStep::SegmentationPlaceholder,
            );
        }
        steps
    }
}

/// Every enabled map is produced exactly once and nothing else runs: a run
/// never falls silent on an enabled map for want of its model file.
pub proof fn lemma_each_enabled_map_once(
    depth_enabled: bool,
    edges_enabled: bool,
    segmentation_enabled: bool,
    depth_model: bool,
    edge_model: bool,
    segmentation_model: bool,
)
    ensures
        ({
            let s = analysis_steps(
                depth_enabled,
                edges_enabled,
                segmentation_enabled,
                depth_model,
                edge_model,
                segmentation_model,
            );
            &&& s.len() == (if depth_enabled { 1int } else { 0 }) + (if edges_enabled { 1int } else { 0 })
                + (if segmentation_enabled { 1int } else { 0 })
            &&& depth_enabled <==> (s.contains(AnalysisStep::DepthModel) || s.contains(AnalysisStep::DepthPlaceholder))
            &&& edges_enabled <==> (s.contains(AnalysisStep::EdgeModel) || s.contains(AnalysisStep::EdgePlaceholder))
            &&& segmentation_enabled <==> (s.contains(AnalysisStep::SegmentationModel) || s.contains(
                AnalysisStep::SegmentationPlaceholder,
            ))
        }),
{
    let d = step_for(depth_enabled, depth_model, AnalysisStep::DepthModel, AnalysisStep::DepthPlaceholder);
    let e = step_for(edges_enabled, edge_model, AnalysisStep::EdgeModel, AnalysisStep::EdgePlaceholder);
    let g = step_for(
        segmentation_enabled,
        segmentation_model,
        AnalysisStep::SegmentationModel,
        AnalysisStep::SegmentationPlaceholder,
    );
    let s = d + e + g;
    assert forall|x: AnalysisStep| s.contains(x) <==> (d.contains(x) || e.contains(x) || g.contains(x)) by {
        if s.contains(x) {
            let i = choose|i: int| 0 <= i < s.len() && s[i] == x;
            if i < d.len() {
                assert(d[i] == x);
            } else if i < d.len() + e.len() {
                assert(e[i - d.len()] == x);
            } else {
                assert(g[i - d.len() - e.len()] == x);
            }
        }
        if d.contains(x) {
            let i = choose|i: int| 0 <= i < d.len() && d[i] == x;
            assert(s[i] == x);
        }
        if e.contains(x) {
            let i = choose|i: int| 0 <= i < e.len() && e[i] == x;
            assert(s[d.len() + i] == x);
        }
        if g.contains(x) {
            let i = choose|i: int| 0 <= i < g.len() && g[i] == x;
            assert(s[d.len() + e.len() + i] == x);
        }
    }
    if depth_enabled {
        assert(d[0] == AnalysisStep::DepthModel || d[0] == AnalysisStep::DepthPlaceholder);
    }
    if edges_enabled {
        assert(e[0] == AnalysisStep::EdgeModel || e[0] == AnalysisStep::EdgePlaceholder);
    }
    if segmentation_enabled {
        assert(g[0] == AnalysisStep::SegmentationModel || g[0] == AnalysisStep::SegmentationPlaceholder);
    }
}

/// An element of three sequences joined lies in one of them.
proof fn lemma_concat3_contains(d: Seq<AnalysisStep>, e: Seq<AnalysisStep>, g: Seq<AnalysisStep>, x: AnalysisStep)
    ensures
        (d + e + g).contains(x) <==> (d.contains(x) || e.contains(x) || g.contains(x)),
{
    let s = d + e + g;
    if s.contains(x) {
        let i = choose|i: int| 0 <= i < s.len() && s[i] == x;
        if i < d.len() {
            assert(d[i] == x);
        } else if i < d.len() + e.len() {
            assert(e[i - d.len()] == x);
        } else {
            assert(g[i - d.len() - e.len()] == x);
        }
    }
    if d.contains(x) {
        let i = choose|i: int| 0 <= i < d.len() && d[i] == x;
        assert(s[i] == x);
    }
    if e.contains(x) {
        let i = choose|i: int| 0 <= i < e.len() && e[i] == x;
        assert(s[d.len() + i] == x);
    }
    if g.contains(x) {
        let i = choose|i: int| 0 <= i < g.len() && g[i] == x;
        assert(s[d.len() + e.len() + i] == x);
    }
}

/// The step of one map holds its model exactly when the map is enabled and
/// the model is present, and its stand-in exactly when enabled and missing.
proof fn lemma_step_for_contains(enabled: bool, model_present: bool, model: AnalysisStep, stand_in: AnalysisStep, x: AnalysisStep)
    requires
        model != stand_in,
    ensures
        step_for(enabled, model_present, model, stand_in).contains(x) <==> enabled && ((model_present && x == model) || (
        !model_present && x == stand_in)),
{
    let t = step_for(enabled, model_present, model, stand_in);
    if enabled {
        assert(t[0] == (if model_present { model } else { stand_in }));
    }
}

/// A step is in a run's plan exactly when its own map is enabled and its own
/// model file is present (for a model step) or missing (for a stand-in):
/// whether a map comes from its model depends on that map's model file
/// alone, whatever the other maps' settings are.
pub proof fn lemma_step_follows_its_own_model(
    depth_enabled: bool,
    edges_enabled: bool,
    segmentation_enabled: bool,
    depth_model: bool,
    edge_model: bool,
    segmentation_model: bool,
    step: AnalysisStep,
)
    ensures
        analysis_steps(depth_enabled, edges_enabled, segmentation_enabled, depth_model, edge_model, segmentation_model).contains(step)
            <==> match step {
            AnalysisStep::DepthModel => depth_enabled && depth_model,
            AnalysisStep::DepthPlaceholder => depth_enabled && !depth_model,
            AnalysisStep::EdgeModel => edges_enabled && edge_model,
            AnalysisStep::EdgePlaceholder => edges_enabled && !edge_model,
            AnalysisStep::SegmentationModel => segmentation_enabled && segmentation_model,
            AnalysisStep::SegmentationPlaceholder => segmentation_enabled && !segmentation_model,
        },
{
    let d = step_for(depth_enabled, depth_model, AnalysisStep::DepthModel, AnalysisStep::DepthPlaceholder);
    let e = step_for(edges_enabled, edge_model, AnalysisStep::EdgeModel, AnalysisStep::EdgePlaceholder);
    let g = step_for(
        segmentation_enabled,
        segmentation_model,
        AnalysisStep::SegmentationModel,
        AnalysisStep::SegmentationPlaceholder,
    );
    lemma_concat3_contains(d, e, g, step);
    lemma_step_for_contains(depth_enabled, depth_model, AnalysisStep::DepthModel, AnalysisStep::DepthPlaceholder, step);
    lemma_step_for_contains(edges_enabled, edge_model, AnalysisStep::EdgeModel, AnalysisStep::EdgePlaceholder, step);
    lemma_step_for_contains(
        segmentation_enabled,
        segmentation_model,
        AnalysisStep::SegmentationModel,
        AnalysisStep::SegmentationPlaceholder,
        step,
    );
}

} // verus!
