//! Text generation around a language model: the prompt is encoded, each
//! sampled token is either the end of the text or is appended and reported,
//! and the tokens are decoded at the end. Running the model and sampling are
//! the caller's part; the decisions between them are made here.
use vstd::prelude::*;
use vstd::string::*;
use crate::base::device::Device;
use crate::base::dtype::DType;
use crate::base::tensor::{Tensor, alloc_fits};
use crate::cache::KVCache;
use crate::error::OxideResult;
use crate::text::{decimal, usize_to_string, ws_words};
use crate::tokenizer::{SimpleTokenizer, decode_all, word_ids};

verus! {

/// A model that maps token ids to logits. Implementations supply the
/// forward pass and their sizes; each size method reports the model's size
/// as its spec function names it.
pub trait LanguageModel {
    /// The number of token ids the model scores.
    spec fn spec_vocab_size(&self) -> usize;

    /// The width of the model's hidden states.
    spec fn spec_hidden_size(&self) -> usize;

    /// The number of the model's layers.
    spec fn spec_num_layers(&self) -> usize;

    fn forward(&self, input_ids: &Tensor, attention_mask: Option<&Tensor>) -> OxideResult<Tensor>;

    fn vocab_size(&self) -> (r: usize)
        ensures
            r == self.spec_vocab_size(),
    ;

    fn hidden_size(&self) -> (r: usize)
        ensures
            r == self.spec_hidden_size(),
    ;

    fn num_layers(&self) -> (r: usize)
        ensures
            r == self.spec_num_layers(),
    ;
}

/// The ids `encode(text, true)` gives: `<s>`, each word's id followed by
/// `<space>`'s, then `</s>`.
pub open spec fn prompt_ids(tok: SimpleTokenizer, text: Seq<char>) -> Seq<usize> {
    seq![tok.bos()] + word_ids(tok.vocab(), tok.unk(), tok.vocab()["<space>"@], ws_words(text)) + seq![tok.eos()]
}

/// `Model: vocab_size=<v>, hidden_size=<h>, num_layers=<l>`.
pub open spec fn model_description(v: nat, h: nat, l: nat) -> Seq<char> {
    "Model: vocab_size="@ + decimal(v) + ", hidden_size="@ + decimal(h) + ", num_layers="@ + decimal(l)
}

/// The state of one generation: the tokens so far (the prompt's, then each
/// accepted one), how many more tokens may be accepted, and whether the end
/// token has come.
pub struct Generation {
    tokens: Vec<usize>,
    remaining: usize,
    stopped: bool,
}

impl Generation {
    pub closed spec fn spec_tokens(&self) -> Seq<usize> {
        self.tokens@
    }

    pub closed spec fn spec_remaining(&self) -> usize {
        self.remaining
    }

    pub closed spec fn spec_stopped(&self) -> bool {
        self.stopped
    }

    /// Generation is over once the end token came or no more may be added.
    pub open spec fn spec_finished(&self) -> bool {
        self.spec_stopped() || self.spec_remaining() == 0
    }

    pub fn is_finished(&self) -> (r: bool)
        ensures
            r == self.spec_finished(),
    {
        self.stopped || self.remaining == 0
    }

    /// The ids the model reads next: all the tokens so far.
    pub fn input_ids(&self) -> (r: &[usize])
        ensures
            r@ == self.spec_tokens(),
    {
        self.tokens.as_slice()
    }
}

/// A language model with its tokenizer and key/value cache on a device.
pub struct InferencePipeline<M: LanguageModel> {
    model: M,
    tokenizer: SimpleTokenizer,
    kv_cache: KVCache,
    device: Device,
}

impl<M: LanguageModel> InferencePipeline<M> {
    pub closed spec fn spec_model(&self) -> M {
        self.model
    }

    pub closed spec fn spec_tokenizer(&self) -> SimpleTokenizer {
        self.tokenizer
    }

    pub closed spec fn spec_cache(&self) -> KVCache {
        self.kv_cache
    }

    pub closed spec fn spec_device(&self) -> Device {
        self.device
    }

    /// A pipeline over `model` and `tokenizer` on `device`, with an empty
    /// cache of one sequence holding `model.num_layers()` layers of
    /// `num_key_value_heads` heads of size `head_dim` for up to
    /// `max_position_embeddings` positions; never fails.
    pub fn with_model(
        model: M,
        tokenizer: SimpleTokenizer,
        num_key_value_heads: usize,
        head_dim: usize,
        max_position_embeddings: usize,
        device: &Device,
    ) -> (r: OxideResult<Self>)
        requires
            alloc_fits(seq![1usize, num_key_value_heads, max_position_embeddings, head_dim], DType::F32),
        ensures
            r matches Ok(p) && {
                &&& p.spec_model() == model
                &&& p.spec_tokenizer() == tokenizer
                &&& p.spec_device() == *device
                &&& p.spec_cache().spec_current() == 0
                &&& p.spec_cache().spec_batch() == 1
                &&& p.spec_cache().spec_heads() == num_key_value_heads
                &&& p.spec_cache().spec_head_dim() == head_dim
                &&& p.spec_cache().spec_max() == max_position_embeddings
                &&& p.spec_cache().spec_layers() == model.spec_num_layers()
            },
    {
        let layers = model.num_layers();
        let kv_cache = match KVCache::new(layers, 1, num_key_value_heads, head_dim, max_position_embeddings, device) {
            Ok(c) => c,
            Err(e) => return Err(e),
        };
        Ok(Self { model, tokenizer, kv_cache, device: device.clone() })
    }

    pub fn model(&self) -> (r: &M)
        ensures
            *r == self.spec_model(),
    {
        &self.model
    }

    pub fn tokenizer(&self) -> (r: &SimpleTokenizer)
        ensures
            *r == self.spec_tokenizer(),
    {
        &self.tokenizer
    }

    pub fn device(&self) -> (r: &Device)
        ensures
            *r == self.spec_device(),
    {
        &self.device
    }

    /// Starts generating after `prompt`: its ids with `<s>` and `</s>`, and
    /// room for `max_new_tokens` more. A prompt with a word needs `<space>`
    /// in the vocabulary.
    pub fn start_generation(&self, prompt: &str, max_new_tokens: usize) -> (g: Generation)
        requires
            ws_words(prompt@).len() > 0 ==> self.spec_tokenizer().vocab().contains_key("<space>"@),
        ensures
            g.spec_tokens() == prompt_ids(self.spec_tokenizer(), prompt@),
            g.spec_remaining() == max_new_tokens,
            !g.spec_stopped(),
    {
        let tokens = self.tokenizer.encode(prompt, true);
        Generation { tokens, remaining: max_new_tokens, stopped: false }
    }

    /// Takes the next sampled token: the end token stops the generation and
    /// gives `None`; any other token is appended, uses up one of the tokens
    /// left, and gives the text of the id equal to the new token count less
    /// one (an index into the vocabulary, not the token itself).
    pub fn step(&self, g: &mut Generation, next_token: usize) -> (r: Option<String>)
        requires
            !old(g).spec_finished(),
        ensures
            next_token == self.spec_tokenizer().eos() ==> {
                &&& r is None
                &&& final(g).spec_stopped()
                &&& final(g).spec_tokens() == old(g).spec_tokens()
                &&& final(g).spec_remaining() == old(g).spec_remaining()
            },
            next_token != self.spec_tokenizer().eos() ==> {
                &&& !final(g).spec_stopped()
                &&& final(g).spec_tokens() == old(g).spec_tokens().push(next_token)
                &&& final(g).spec_remaining() == old(g).spec_remaining() - 1
                &&& r matches Some(text) && text@ == decode_all(
                    self.spec_tokenizer().reverse(),
                    seq![old(g).spec_tokens().len() as usize],
                    false,
                    self.spec_tokenizer().bos(),
                    self.spec_tokenizer().eos(),
                    self.spec_tokenizer().pad(),
                )
            },
    {
        if next_token == self.tokenizer.eos_token_id() {
            g.stopped = true;
            return None;
        }
        g.tokens.push(next_token);
        g.remaining = g.remaining - 1;
        let last = g.tokens.len() - 1;
        let ids = [last];
        assert(ids@ =~= seq![old(g).spec_tokens().len() as usize]);
        Some(self.tokenizer.decode(&ids, false))
    }

    /// The text of all the tokens of a generation, the prompt's included.
    pub fn finish(&self, g: &Generation) -> (r: String)
        ensures
            r@ == decode_all(
                self.spec_tokenizer().reverse(),
                g.spec_tokens(),
                false,
                self.spec_tokenizer().bos(),
                self.spec_tokenizer().eos(),
                self.spec_tokenizer().pad(),
            ),
    {
        self.tokenizer.decode(g.input_ids(), false)
    }

    /// Empties the key/value cache.
    pub fn clear_cache(&mut self)
        ensures
            final(self).spec_cache().spec_current() == 0,
            final(self).spec_cache().spec_max() == old(self).spec_cache().spec_max(),
            final(self).spec_cache().spec_layers() == old(self).spec_cache().spec_layers(),
            final(self).spec_model() == old(self).spec_model(),
            final(self).spec_tokenizer() == old(self).spec_tokenizer(),
            final(self).spec_device() == old(self).spec_device(),
    {
        self.kv_cache.clear();
    }

    /// The model's vocabulary size, hidden size and layer count, in that
    /// order, as `describe_model` writes them.
    pub fn model_info(&self) -> (r: String)
        ensures
            r@ == model_description(
                self.spec_model().spec_vocab_size() as nat,
                self.spec_model().spec_hidden_size() as nat,
                self.spec_model().spec_num_layers() as nat,
            ),
    {
        let v = self.model.vocab_size();
        let h = self.model.hidden_size();
        let l = self.model.num_layers();
        describe_model(v, h, l)
    }
}

/// `Model: vocab_size=<v>, hidden_size=<h>, num_layers=<l>`.
pub fn describe_model(vocab_size: usize, hidden_size: usize, num_layers: usize) -> (r: String)
    ensures
        r@ == model_description(vocab_size as nat, hidden_size as nat, num_layers as nat),
{
    proof {
        reveal_strlit("Model: vocab_size=");
        reveal_strlit(", hidden_size=");
        reveal_strlit(", num_layers=");
    }
    let mut s = String::from_str("Model: vocab_size=");
    s.append(usize_to_string(vocab_size).as_str());
    s.append(", hidden_size=");
    s.append(usize_to_string(hidden_size).as_str());
    s.append(", num_layers=");
    s.append(usize_to_string(num_layers).as_str());
    s
}

} // verus!
