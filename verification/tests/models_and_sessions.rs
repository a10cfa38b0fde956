use pixelforge::downloader::{default_enabled, default_max_concurrent, default_retries, default_timeout, default_verify, enabled_in_id_order, order_by_id, pending_downloads, summarize_downloads, DownloadSettings};
use pixelforge::model_output::{class_map_dims, detection_dims, feature_index, fixed_input_dims, map_dims, nearest_source_index, trailing_map_start, OutputError, DET_CHANNELS};
use pixelforge::session::ExecutionBackend::{CoreML, Cpu, Cuda, DirectML};
use pixelforge::session::{ExecutionBackend, ModelType, SessionCache, TargetOs};

#[test]
fn map_dims_by_rank() {
    assert_eq!(map_dims(&[1, 1, 384, 512]), Ok((384, 512)));
    assert_eq!(map_dims(&[1, 384, 512]), Ok((384, 512)));
    assert_eq!(map_dims(&[384, 512]), Ok((384, 512)));
    assert_eq!(map_dims(&[5]), Err(OutputError::UnexpectedShape(vec![5])));
    assert_eq!(map_dims(&[1, 1, 1, 2, 3]), Err(OutputError::UnexpectedShape(vec![1, 1, 1, 2, 3])));
}

#[test]
fn trailing_map_start_skips_leading_values() {
    assert_eq!(trailing_map_start(12, 2, 3), Ok(6));
    assert_eq!(trailing_map_start(6, 2, 3), Ok(0));
    assert_eq!(trailing_map_start(5, 2, 3), Err(OutputError::OutputTooSmall { expected: 6, got: 5 }));
}

#[test]
fn class_map_dims_by_rank() {
    assert_eq!(class_map_dims(&[1, 19, 512, 512]), Ok((19, 512, 512)));
    assert_eq!(class_map_dims(&[19, 64, 32]), Ok((19, 64, 32)));
    assert_eq!(class_map_dims(&[19, 64]), Err(OutputError::UnexpectedShape(vec![19, 64])));
}

#[test]
fn detection_dims_checks_channels() {
    assert_eq!(DET_CHANNELS, 15);
    assert_eq!(detection_dims(&[1, 15, 525]), Ok((15, 525)));
    assert_eq!(detection_dims(&[20, 8]), Ok((20, 8)));
    assert_eq!(detection_dims(&[1, 14, 525]), Err(OutputError::TooFewChannels { expected: 15, got: 14 }));
    assert_eq!(detection_dims(&[1, 1, 15, 525]), Err(OutputError::UnexpectedShape(vec![1, 1, 15, 525])));
}

#[test]
fn feature_index_is_channel_major() {
    assert_eq!(feature_index(4, 2, 10, 150), Some(42));
    assert_eq!(feature_index(14, 9, 10, 150), Some(149));
    assert_eq!(feature_index(14, 9, 10, 149), None);
}

#[test]
fn fixed_input_dims_reads_nchw() {
    assert_eq!(fixed_input_dims(&[1, 3, 512, 384]), Some((384, 512)));
    assert_eq!(fixed_input_dims(&[1, 3, -1, -1]), None);
    assert_eq!(fixed_input_dims(&[1, 3, 512]), None);
    assert_eq!(fixed_input_dims(&[1, 3, 0, 512]), None);
}

#[test]
fn nearest_source_index_scales_down() {
    // 512-wide model output mapped onto a 1024-wide image
    assert_eq!(nearest_source_index(0, 512, 1024), 0);
    assert_eq!(nearest_source_index(3, 512, 1024), 1);
    assert_eq!(nearest_source_index(1023, 512, 1024), 511);
    // upsampling a 2-wide map onto 3 pixels
    assert_eq!(nearest_source_index(2, 2, 3), 1);
    // clamped to the last source position
    assert_eq!(nearest_source_index(10, 4, 5), 3);
}

#[test]
fn backends_per_platform() {
    assert_eq!(ExecutionBackend::default(), Cpu);
    assert_eq!(ExecutionBackend::available_backends(TargetOs::Windows, true), vec![DirectML, Cuda, Cpu]);
    assert_eq!(ExecutionBackend::available_backends(TargetOs::Windows, false), vec![DirectML, Cpu]);
    assert_eq!(ExecutionBackend::available_backends(TargetOs::Linux, true), vec![Cuda, Cpu]);
    assert_eq!(ExecutionBackend::available_backends(TargetOs::Linux, false), vec![Cpu]);
    assert_eq!(ExecutionBackend::available_backends(TargetOs::MacOs, false), vec![CoreML, Cpu]);
    assert_eq!(ExecutionBackend::available_backends(TargetOs::Other, true), vec![Cpu]);
}

#[test]
fn backend_availability() {
    assert!(Cpu.is_available(TargetOs::Other, false));
    assert!(Cuda.is_available(TargetOs::Linux, true));
    assert!(!Cuda.is_available(TargetOs::Linux, false));
    assert!(DirectML.is_available(TargetOs::Windows, false));
    assert!(!DirectML.is_available(TargetOs::Linux, true));
    assert!(CoreML.is_available(TargetOs::MacOs, false));
    assert!(!CoreML.is_available(TargetOs::Windows, false));
}

#[test]
fn backend_selection_prefers_gpus() {
    assert_eq!(ExecutionBackend::select(TargetOs::Windows, true), DirectML);
    assert_eq!(ExecutionBackend::select(TargetOs::Linux, true), Cuda);
    assert_eq!(ExecutionBackend::select(TargetOs::Linux, false), Cpu);
    assert_eq!(ExecutionBackend::select(TargetOs::MacOs, true), CoreML);
    assert_eq!(ExecutionBackend::select(TargetOs::Other, true), Cpu);
}

#[test]
fn every_offered_backend_is_available() {
    for os in [TargetOs::Windows, TargetOs::Linux, TargetOs::MacOs, TargetOs::Other] {
        for cuda in [false, true] {
            let offered = ExecutionBackend::available_backends(os, cuda);
            assert_eq!(*offered.last().unwrap(), ExecutionBackend::Cpu);
            assert!(offered.iter().all(|b| b.is_available(os, cuda)));
            assert!(offered.contains(&ExecutionBackend::select(os, cuda)));
        }
    }
}

#[test]
fn model_input_shapes() {
    assert_eq!(ModelType::FaceDetection.default_input_shape(), vec![1, 3, 160, 160]);
    assert_eq!(ModelType::DepthEstimation.default_input_shape(), vec![1, 3, 384, 384]);
    assert_eq!(ModelType::Segmentation.default_input_shape(), vec![1, 3, 512, 512]);
    assert_eq!(ModelType::EdgeDetection.default_input_shape(), vec![1, 3, 512, 512]);
}

#[test]
fn session_cache_loads_once() {
    let mut cache: SessionCache<u32> = SessionCache::new();
    assert!(!cache.is_loaded(b"a.onnx", ModelType::DepthEstimation));
    cache.insert(b"a.onnx".to_vec(), ModelType::DepthEstimation, 7);
    cache.insert(b"a.onnx".to_vec(), ModelType::Segmentation, 8);
    assert_eq!(cache.get(b"a.onnx", ModelType::DepthEstimation), Some(&7));
    assert_eq!(cache.get(b"a.onnx", ModelType::Segmentation), Some(&8));
    assert_eq!(cache.get(b"b.onnx", ModelType::DepthEstimation), None);
    assert_eq!(cache.len(), 2);
    cache.insert(b"a.onnx".to_vec(), ModelType::DepthEstimation, 9);
    assert_eq!(cache.get(b"a.onnx", ModelType::DepthEstimation), Some(&9));
    assert_eq!(cache.len(), 2);
    assert_eq!(cache.cache_stats(), (2, 100));
}

#[test]
fn session_cache_unload_and_clear() {
    let mut cache: SessionCache<&str> = SessionCache::new();
    cache.insert(b"x".to_vec(), ModelType::FaceDetection, "x");
    cache.insert(b"y".to_vec(), ModelType::FaceDetection, "y");
    cache.unload(b"x", ModelType::FaceDetection);
    assert!(!cache.is_loaded(b"x", ModelType::FaceDetection));
    assert!(cache.is_loaded(b"y", ModelType::FaceDetection));
    cache.unload(b"nothing", ModelType::Segmentation);
    assert_eq!(cache.len(), 1);
    cache.clear();
    assert_eq!(cache.len(), 0);
    assert_eq!(cache.cache_stats(), (0, 0));
}

#[test]
fn download_defaults() {
    assert!(default_enabled());
    assert_eq!(default_max_concurrent(), 2);
    assert_eq!(default_timeout(), 300);
    assert_eq!(default_retries(), 3);
    assert!(default_verify());
    let s = DownloadSettings::default();
    assert_eq!(s, DownloadSettings { max_concurrent: 2, timeout: 300, retries: 3, verify_exists: true });
}

fn strings(v: &[&str]) -> Vec<String> {
    v.iter().map(|s| s.to_string()).collect()
}

#[test]
fn order_by_id_sorts_like_string_cmp() {
    let ids = strings(&["segmentation", "depth_anything", "edge_detection", "Zeta", "depth"]);
    let order = order_by_id(&ids);
    let sorted: Vec<&str> = order.iter().map(|&i| ids[i].as_str()).collect();
    let mut expected: Vec<&str> = ids.iter().map(|s| s.as_str()).collect();
    expected.sort();
    assert_eq!(sorted, expected);
    assert_eq!(order, vec![3, 4, 1, 2, 0]);
}

#[test]
fn order_by_id_is_stable_for_equal_ids() {
    let ids = strings(&["b", "a", "b", "a"]);
    assert_eq!(order_by_id(&ids), vec![1, 3, 0, 2]);
    assert_eq!(order_by_id(&strings(&[])), Vec::<usize>::new());
}

#[test]
fn model_list_order_does_not_depend_on_read_order() {
    let a = strings(&["teed", "depth_anything", "anime_seg", "yolo"]);
    let b = strings(&["yolo", "anime_seg", "teed", "depth_anything"]);
    let sa: Vec<String> = order_by_id(&a).into_iter().map(|i| a[i].clone()).collect();
    let sb: Vec<String> = order_by_id(&b).into_iter().map(|i| b[i].clone()).collect();
    assert_eq!(sa, sb);
}

#[test]
fn order_by_id_compares_code_points() {
    let ids = strings(&["é", "z", "ä", "a"]);
    assert_eq!(order_by_id(&ids), vec![3, 1, 2, 0]);
}

#[test]
fn all_downloads_failing_is_an_error() {
    let r = summarize_downloads(Vec::<u32>::new(), &strings(&["Depth: HTTP 404", "Edges: timeout"]));
    assert_eq!(r, Err("All downloads failed:\nDepth: HTTP 404\nEdges: timeout".to_string()));
}

#[test]
fn partial_failures_still_return_the_paths() {
    let r = summarize_downloads(vec![1u32, 2], &strings(&["Depth: HTTP 404"]));
    assert_eq!(r, Ok(vec![1, 2]));
    let none: Result<Vec<u32>, String> = summarize_downloads(Vec::new(), &Vec::new());
    assert_eq!(none, Ok(vec![]));
}

#[test]
fn pending_downloads_are_enabled_and_missing() {
    let enabled = vec![true, false, true, true, false];
    let downloaded = vec![false, false, true, false, true];
    assert_eq!(pending_downloads(&enabled, &downloaded), vec![0, 3]);
    assert_eq!(pending_downloads(&vec![true, true], &vec![true, true]), Vec::<usize>::new());
    assert_eq!(pending_downloads(&Vec::new(), &Vec::new()), Vec::<usize>::new());
}

#[test]
fn model_list_holds_enabled_models_in_id_order() {
    let ids: Vec<String> = ["sam", "depth", "edges", "anime", "bisenet"].iter().map(|s| s.to_string()).collect();
    let enabled = vec![true, true, false, true, false];
    assert_eq!(enabled_in_id_order(&ids, &enabled), vec![3, 1, 0]);
    assert_eq!(enabled_in_id_order(&ids, &vec![false; 5]), Vec::<usize>::new());
}

#[test]
fn ensure_loaded_loads_only_on_a_miss() {
    let mut cache: SessionCache<u32> = SessionCache::new();
    let mut calls = 0;
    assert_eq!(cache.ensure_loaded(b"m.onnx".to_vec(), ModelType::DepthEstimation, || -> Result<u32, String> {
        calls += 1;
        Ok(7)
    }), Ok(()));
    assert_eq!(cache.ensure_loaded(b"m.onnx".to_vec(), ModelType::DepthEstimation, || -> Result<u32, String> {
        calls += 1;
        Ok(9)
    }), Ok(()));
    assert_eq!(calls, 1);
    assert_eq!(cache.get(b"m.onnx", ModelType::DepthEstimation), Some(&7));
    let r = cache.ensure_loaded(b"x.onnx".to_vec(), ModelType::DepthEstimation, || -> Result<u32, String> { Err("missing".to_string()) });
    assert_eq!(r, Err("missing".to_string()));
    assert!(!cache.is_loaded(b"x.onnx", ModelType::DepthEstimation));
    assert_eq!(cache.len(), 1);
}
