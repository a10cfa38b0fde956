use pixelforge::analysis::{AnalysisStep, MLAnalysis};
use pixelforge::config::{DirectoryConfig, ModelConfig, ModelQuality, ProcessingDefaults, Theme};
use pixelforge::ml_config::{DepthColormap, ExecutionConfig, ExecutionMode};
use pixelforge::sizing::{get_output_dimensions, AspectRatioMode, PreviewTab};

#[test]
fn sizing_defaults() {
    assert_eq!(AspectRatioMode::default(), AspectRatioMode::Square);
    assert_eq!(PreviewTab::default(), PreviewTab::Original);
}

#[test]
fn square_mode_uses_target_size() {
    assert_eq!(get_output_dimensions(AspectRatioMode::Square, 32, 10, 10, Some((640, 480))), (32, 32));
}

#[test]
fn custom_mode_has_minimum_side() {
    assert_eq!(get_output_dimensions(AspectRatioMode::Custom, 32, 100, 60, None), (100, 60));
    assert_eq!(get_output_dimensions(AspectRatioMode::Custom, 32, 3, 60, None), (8, 60));
    assert_eq!(get_output_dimensions(AspectRatioMode::Custom, 32, 100, 0, None), (100, 8));
}

#[test]
fn preserve_mode_scales_the_short_side() {
    // landscape: 64 * 480 / 640 = 48
    assert_eq!(get_output_dimensions(AspectRatioMode::Preserve, 64, 0, 0, Some((640, 480))), (64, 48));
    // portrait: 64 * 480 / 640 = 48 wide
    assert_eq!(get_output_dimensions(AspectRatioMode::Preserve, 64, 0, 0, Some((480, 640))), (48, 64));
    // square input
    assert_eq!(get_output_dimensions(AspectRatioMode::Preserve, 32, 0, 0, Some((100, 100))), (32, 32));
    // rounding half up: 32 * 3 / 64 = 1.5 -> 2 -> raised to 8
    assert_eq!(get_output_dimensions(AspectRatioMode::Preserve, 32, 0, 0, Some((64, 3))), (32, 8));
    // 100 * 1 / 3 = 33.33 -> 33
    assert_eq!(get_output_dimensions(AspectRatioMode::Preserve, 100, 0, 0, Some((3, 1))), (100, 33));
    // 100 * 2 / 3 = 66.67 -> 67
    assert_eq!(get_output_dimensions(AspectRatioMode::Preserve, 100, 0, 0, Some((2, 3))), (67, 100));
}

#[test]
fn preserve_mode_without_image_is_square() {
    assert_eq!(get_output_dimensions(AspectRatioMode::Preserve, 48, 0, 0, None), (48, 48));
}

#[test]
fn preserve_mode_with_empty_image() {
    assert_eq!(get_output_dimensions(AspectRatioMode::Preserve, 48, 0, 0, Some((0, 0))), (8, 48));
    assert_eq!(get_output_dimensions(AspectRatioMode::Preserve, 48, 0, 0, Some((5, 0))), (48, 8));
    assert_eq!(get_output_dimensions(AspectRatioMode::Preserve, 48, 0, 0, Some((0, 5))), (8, 48));
}

#[test]
fn model_quality_names() {
    assert_eq!(ModelQuality::default(), ModelQuality::Minimal);
    assert_eq!(ModelQuality::Minimal.as_str(), "minimal");
    assert_eq!(ModelQuality::Standard.as_str(), "standard");
    assert_eq!(ModelQuality::High.as_str(), "high");
    assert_eq!(ModelQuality::Minimal.display_name(), "Minimal (Fast)");
    assert_eq!(ModelQuality::Standard.display_name(), "Standard");
    assert_eq!(ModelQuality::High.display_name(), "High Quality");
}

#[test]
fn config_defaults() {
    let m = ModelConfig::default();
    assert!(m.auto_download);
    assert!(!m.check_updates);
    assert_eq!(Theme::default(), Theme::Dark);
    let p = ProcessingDefaults::default();
    assert_eq!(p.default_output_size, 32);
    assert_eq!(p.default_edge_thickness, 1);
    let d = DirectoryConfig::default();
    assert!(d.last_image_dir.is_none() && d.last_export_dir.is_none() && d.custom_model_dir.is_none());
}

#[test]
fn startup_values_from_persisted_defaults() {
    let p = ProcessingDefaults { default_output_size: 8, default_edge_thickness: 0 };
    assert_eq!(p.startup_output_size(), 16);
    assert_eq!(p.startup_edge_thickness(), 1);
    let q = ProcessingDefaults { default_output_size: 128, default_edge_thickness: 9 };
    assert_eq!(q.startup_output_size(), 128);
    assert_eq!(q.startup_edge_thickness(), 4);
    let r = ProcessingDefaults { default_output_size: 16, default_edge_thickness: 3 };
    assert_eq!(r.startup_output_size(), 16);
    assert_eq!(r.startup_edge_thickness(), 3);
}

#[test]
fn ml_config_defaults() {
    assert_eq!(DepthColormap::default(), DepthColormap::Turbo);
    assert_eq!(ExecutionMode::default(), ExecutionMode::GpuSequential);
    let e = ExecutionConfig::default();
    assert_eq!(e.mode, ExecutionMode::GpuSequential);
    assert_eq!(e.gpu_device, 0);
}

#[test]
fn analysis_plan_uses_models_when_present() {
    assert_eq!(
        MLAnalysis::plan(true, true, true, true, false, true),
        vec![AnalysisStep::DepthModel, AnalysisStep::EdgePlaceholder, AnalysisStep::SegmentationModel]
    );
    assert_eq!(MLAnalysis::plan(false, true, false, true, true, true), vec![AnalysisStep::EdgeModel]);
    assert_eq!(MLAnalysis::plan(false, false, false, true, true, true), vec![]);
    assert_eq!(
        MLAnalysis::plan(true, false, true, false, false, false),
        vec![AnalysisStep::DepthPlaceholder, AnalysisStep::SegmentationPlaceholder]
    );
}

#[test]
fn output_sides_never_below_eight() {
    let sizes = [(1u32, 1000u32), (1000, 1), (3, 7), (640, 480), (0, 0), (5, 0)];
    for mode in [AspectRatioMode::Square, AspectRatioMode::Preserve, AspectRatioMode::Custom] {
        for target in [8u32, 16, 32, 256] {
            for &(w, h) in &sizes {
                let (ow, oh) = get_output_dimensions(mode, target, w, h, Some((w, h)));
                assert!(ow >= 8 && oh >= 8, "{:?} {} {}x{} gave {}x{}", mode, target, w, h, ow, oh);
                if mode == AspectRatioMode::Preserve && w > 0 && h > 0 {
                    if w >= h {
                        assert!(ow == target && oh <= ow);
                    } else {
                        assert!(oh == target && ow <= oh);
                    }
                }
            }
        }
    }
}
