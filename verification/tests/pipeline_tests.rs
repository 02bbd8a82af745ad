use mistralrs_oxide::base::{DType, Device, Shape, Tensor};
use mistralrs_oxide::cache::KVCache;
use mistralrs_oxide::error::{OxideError, OxideResult};
use mistralrs_oxide::pipeline::{describe_model, InferencePipeline, LanguageModel};
use mistralrs_oxide::tokenizer::SimpleTokenizer;

struct FixedModel;

impl LanguageModel for FixedModel {
    fn spec_vocab_size(&self) -> usize {
        7
    }

    fn spec_hidden_size(&self) -> usize {
        16
    }

    fn spec_num_layers(&self) -> usize {
        2
    }

    fn forward(&self, input_ids: &Tensor, _attention_mask: Option<&Tensor>) -> OxideResult<Tensor> {
        Ok(input_ids.clone())
    }

    fn vocab_size(&self) -> usize {
        7
    }

    fn hidden_size(&self) -> usize {
        16
    }

    fn num_layers(&self) -> usize {
        2
    }
}

fn pipeline() -> InferencePipeline<FixedModel> {
    let tok = SimpleTokenizer::from_simple_words(vec!["hello", "world"]);
    InferencePipeline::with_model(FixedModel, tok, 2, 4, 8, &Device::Cpu).unwrap()
}

fn message<T>(r: Result<T, OxideError>) -> String {
    match r {
        Err(OxideError::InvalidArgument(m)) => m,
        _ => panic!("expected a refusal"),
    }
}

#[test]
fn generation_starts_from_the_encoded_prompt() {
    let p = pipeline();
    let g = p.start_generation("hello world", 3);
    assert_eq!(g.input_ids(), &[0, 5, 4, 6, 4, 1]);
    assert!(!g.is_finished());
    assert!(p.start_generation("hello", 0).is_finished());
}

#[test]
fn each_token_is_appended_until_the_end_token() {
    let p = pipeline();
    let mut g = p.start_generation("hello", 5);
    assert_eq!(g.input_ids(), &[0, 5, 4, 1]);
    // The reported text is that of the id equal to the new count less one.
    assert_eq!(p.step(&mut g, 6), Some(" ".to_string()));
    assert_eq!(g.input_ids(), &[0, 5, 4, 1, 6]);
    assert_eq!(p.step(&mut g, 4), Some("hello".to_string()));
    assert_eq!(p.step(&mut g, 1), None);
    assert!(g.is_finished());
    assert_eq!(g.input_ids(), &[0, 5, 4, 1, 6, 4]);
    assert_eq!(p.finish(&g), "<s>hello </s>world ");
}

#[test]
fn generation_stops_after_the_allowed_tokens() {
    let p = pipeline();
    let mut g = p.start_generation("", 2);
    assert_eq!(g.input_ids(), &[0, 1]);
    p.step(&mut g, 5);
    assert!(!g.is_finished());
    p.step(&mut g, 6);
    assert!(g.is_finished());
    assert_eq!(p.finish(&g), "<s></s>helloworld");
}

#[test]
fn model_info_lists_the_sizes() {
    let p = pipeline();
    assert_eq!(p.model_info(), "Model: vocab_size=7, hidden_size=16, num_layers=2");
    assert_eq!(describe_model(100, 128, 4), "Model: vocab_size=100, hidden_size=128, num_layers=4");
}

#[test]
fn clear_cache_keeps_the_pipeline() {
    let mut p = pipeline();
    p.clear_cache();
    assert_eq!(p.model().num_layers(), 2);
    assert!(p.device().is_cpu());
}

#[test]
fn cache_grows_with_updates_and_refuses_overflow() {
    let mut c = KVCache::new(2, 1, 2, 4, 8, &Device::Cpu).unwrap();
    assert_eq!((c.current_seq_len(), c.max_seq_len(), c.num_layers()), (0, 8, 2));
    let k = Tensor::zeros(Shape::new(&[1, 2, 5, 4]), DType::F32, &Device::Cpu).unwrap();
    c.update(0, &k, &k).unwrap();
    assert_eq!(c.current_seq_len(), 5);
    assert!(!c.is_full());
    assert_eq!(message(c.update(1, &k, &k)), "KV cache overflow: 10 > 8");
    assert_eq!(c.current_seq_len(), 5);
    assert_eq!(message(c.update(2, &k, &k)), "Layer index 2 out of range for 2 layers");
    let k3 = Tensor::zeros(Shape::new(&[1, 2, 3, 4]), DType::F32, &Device::Cpu).unwrap();
    c.update(1, &k3, &k3).unwrap();
    assert!(c.is_full());
    c.clear();
    assert_eq!(c.current_seq_len(), 0);
}

#[test]
fn cache_size_counts_both_tensors_of_every_layer() {
    let c = KVCache::new(3, 1, 2, 4, 8, &Device::Cpu).unwrap();
    assert_eq!(c.get_cache_size(), 2 * 2 * 8 * 4 * 4 * 3);
}

#[test]
fn token_id_finds_vocabulary_words() {
    let t = SimpleTokenizer::from_simple_words(vec!["hello", "world"]);
    assert_eq!(t.token_id("<space>"), Some(4));
    assert_eq!(t.token_id("world"), Some(6));
    assert_eq!(t.token_id("fox"), None);
}
