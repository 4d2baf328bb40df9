use candle_core::{Device, Tensor};
use candle_transformers::models::clip;
use semantic_gallery::embedding::pad_token_rows;
use semantic_gallery::media::MediaAsset;
use semantic_gallery::retrieval::score_key;

type TestResult = Result<(), Box<dyn std::error::Error>>;

fn cosine_of(emb1: &Tensor, emb2: &Tensor) -> TestResult2 {
    Ok(emb1.matmul(&emb2.transpose(0, 1)?)?.sum_all()?.to_scalar::<f32>()?)
}

type TestResult2 = Result<f32, Box<dyn std::error::Error>>;

#[test]
fn test_cosine_similarity_identical_vectors() -> TestResult {
    // Two identical vectors should have similarity of 1.0
    let vec = Tensor::new(&[1.0f32; 512], &Device::Cpu)?.unsqueeze(0)?;
    let normalized_vec = clip::div_l2_norm(&vec)?;
    let result = cosine_of(&normalized_vec, &normalized_vec)?;
    assert!((result - 1.0).abs() <= 1e-5);
    Ok(())
}

#[test]
fn test_cosine_similarity_orthogonal_vectors() -> TestResult {
    // Create truly orthogonal vectors instead of using a zero vector
    let mut vec1_data = vec![0.0f32; 512];
    let mut vec2_data = vec![0.0f32; 512];

    // Set first half of vec1 to 1.0
    for i in 0..256 {
        vec1_data[i] = 1.0;
    }

    // Set second half of vec2 to 1.0
    for i in 256..512 {
        vec2_data[i] = 1.0;
    }

    let vec1 = Tensor::new(&vec1_data[..], &Device::Cpu)?.unsqueeze(0)?;
    let vec2 = Tensor::new(&vec2_data[..], &Device::Cpu)?.unsqueeze(0)?;
    let normalized_vec1 = clip::div_l2_norm(&vec1)?;
    let normalized_vec2 = clip::div_l2_norm(&vec2)?;
    let result = cosine_of(&normalized_vec1, &normalized_vec2)?;
    assert!((result - 0.0).abs() <= 1e-5);
    Ok(())
}

#[test]
fn test_cosine_similarity_opposite_vectors() -> TestResult {
    // Opposite vectors should have similarity of -1.0
    let vec1 = Tensor::new(&[1.0f32; 512], &Device::Cpu)?.unsqueeze(0)?;
    let vec2 = Tensor::new(&[-1.0f32; 512], &Device::Cpu)?.unsqueeze(0)?;
    let normalized_vec1 = clip::div_l2_norm(&vec1)?;
    let normalized_vec2 = clip::div_l2_norm(&vec2)?;
    let result = cosine_of(&normalized_vec1, &normalized_vec2)?;
    assert!((result - (-1.0)).abs() <= 1e-5);
    Ok(())
}

#[test]
fn l2_normalization_yields_unit_length() -> TestResult {
    // |encode(...)| == 1.0 up to 1e-5 rests on div_l2_norm; check it on an
    // arbitrary non-unit vector.
    let raw = Tensor::new(&[3.0f32, 4.0, 12.0, 0.5, -2.0], &Device::Cpu)?.unsqueeze(0)?;
    let normalized = clip::div_l2_norm(&raw)?;
    let norm = normalized.sqr()?.sum_all()?.to_scalar::<f32>()?.sqrt();
    assert!((norm - 1.0).abs() <= 1e-5);
    Ok(())
}

#[test]
fn similarity_extremes_rank_in_numeric_order() -> TestResult {
    // The three reference similarities, pushed through the ranking key,
    // keep their numeric order: -1.0 below 0.0 below 1.0.
    let base = Tensor::new(&[1.0f32; 512], &Device::Cpu)?.unsqueeze(0)?;
    let opposite = Tensor::new(&[-1.0f32; 512], &Device::Cpu)?.unsqueeze(0)?;
    let a = clip::div_l2_norm(&base)?;
    let b = clip::div_l2_norm(&opposite)?;
    let same = cosine_of(&a, &a)?;
    let anti = cosine_of(&a, &b)?;
    let mut v = vec![0.0f32; 512];
    v[0] = 1.0;
    let mut w = vec![0.0f32; 512];
    w[1] = 1.0;
    let t1 = clip::div_l2_norm(&Tensor::new(&v[..], &Device::Cpu)?.unsqueeze(0)?)?;
    let t2 = clip::div_l2_norm(&Tensor::new(&w[..], &Device::Cpu)?.unsqueeze(0)?)?;
    let ortho = cosine_of(&t1, &t2)?;
    assert!(score_key(anti.to_bits()) < score_key(ortho.to_bits()));
    assert!(score_key(ortho.to_bits()) < score_key(same.to_bits()));
    Ok(())
}

#[test]
fn padding_fills_to_the_batch_maximum() {
    let rows = vec![vec![1u32, 2, 3], vec![4u32], vec![5u32, 6]];
    let padded = pad_token_rows(rows, 9);
    assert_eq!(padded, vec![vec![1u32, 2, 3], vec![4u32, 9, 9], vec![5u32, 6, 9]]);
}

#[test]
fn padding_of_empty_batch_is_empty() {
    let padded = pad_token_rows(Vec::new(), 7);
    assert!(padded.is_empty());
}

#[test]
fn asset_reads_dimensions_from_the_decoded_image() {
    let details = semantic_gallery::media::MediaDetails {
        image: image::DynamicImage::ImageRgb8(image::RgbImage::new(64, 48)),
        filename: "pic.png".to_string(),
        file_path: "gallery/pic.png".to_string(),
        file_size: 2048,
    };
    let a: MediaAsset = MediaAsset::from_details(&details, 42);
    assert_eq!(a.id, 42);
    assert_eq!(a.width, 64);
    assert_eq!(a.height, 48);
    assert_eq!(a.filename, "pic.png");
    assert_eq!(a.file_path, "gallery/pic.png");
    assert_eq!(a.file_size, 2048);
    assert_eq!(a.content_type, "image/png");
    assert!(a.metadata.is_none());
}
