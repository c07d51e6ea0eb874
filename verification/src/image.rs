//! Images: the images generated from prompts and the analyses made of image files.

use vstd::prelude::*;
use crate::clock::{new_uuid, now_timestamp, MAX_TIMESTAMP};
use crate::error::AppError;
use crate::rbac::lists_map;
use crate::store::{record_entries, Record, Store};
use crate::text::{clone_strings, concat3, nat_decimal, push_str, push_u64_decimal, str_to_string, string_views};

verus! {

/// The bit pattern of the confidence given to analyses, the floating-point number 0.92
/// (`0.92f64.to_bits()`).
pub const ANALYSIS_CONFIDENCE_BITS: u64 = 0x3FED_70A3_D70A_3D71;

/// A generated image.
#[derive(Debug)]
pub struct GeneratedImage {
    pub id: String,
    pub prompt: String,
    pub width: u32,
    pub height: u32,
    pub format: String,
    pub path: String,
    pub created_at: i64,
}

/// The value of a generated image.
pub struct ImageView {
    pub id: Seq<char>,
    pub prompt: Seq<char>,
    pub width: u32,
    pub height: u32,
    pub format: Seq<char>,
    pub path: Seq<char>,
    pub created_at: i64,
}

impl View for GeneratedImage {
    type V = ImageView;

    open spec fn view(&self) -> ImageView {
        ImageView {
            id: self.id@,
            prompt: self.prompt@,
            width: self.width,
            height: self.height,
            format: self.format@,
            path: self.path@,
            created_at: self.created_at,
        }
    }
}

impl Record for GeneratedImage {
    open spec fn key_of(v: ImageView) -> Seq<char> {
        v.id
    }

    fn key(&self) -> (r: &str) {
        self.id.as_str()
    }

    fn duplicate(&self) -> (r: Self) {
        GeneratedImage {
            id: self.id.clone(),
            prompt: self.prompt.clone(),
            width: self.width,
            height: self.height,
            format: self.format.clone(),
            path: self.path.clone(),
            created_at: self.created_at,
        }
    }
}

/// An analysis of an image file. Its confidence is a floating-point number, held by its
/// IEEE-754 bit pattern (`f64::to_bits`).
#[derive(Debug)]
pub struct ImageAnalysis {
    pub image_path: String,
    pub description: String,
    pub objects: Vec<String>,
    pub colors: Vec<String>,
    pub confidence_bits: u64,
}

/// The value of an analysis.
pub struct AnalysisView {
    pub image_path: Seq<char>,
    pub description: Seq<char>,
    pub objects: Seq<Seq<char>>,
    pub colors: Seq<Seq<char>>,
    pub confidence_bits: u64,
}

impl View for ImageAnalysis {
    type V = AnalysisView;

    open spec fn view(&self) -> AnalysisView {
        AnalysisView {
            image_path: self.image_path@,
            description: self.description@,
            objects: string_views(self.objects@),
            colors: string_views(self.colors@),
            confidence_bits: self.confidence_bits,
        }
    }
}

impl ImageAnalysis {
    /// A copy of the analysis.
    pub fn duplicate(&self) -> (r: Self)
        ensures
            r@ == self@,
    {
        ImageAnalysis {
            image_path: self.image_path.clone(),
            description: self.description.clone(),
            objects: clone_strings(&self.objects),
            colors: clone_strings(&self.colors),
            confidence_bits: self.confidence_bits,
        }
    }
}

/// An analysis with the id it was filed under.
#[derive(Debug)]
pub struct FiledAnalysis {
    pub id: String,
    pub analysis: ImageAnalysis,
}

impl View for FiledAnalysis {
    type V = (Seq<char>, AnalysisView);

    open spec fn view(&self) -> (Seq<char>, AnalysisView) {
        (self.id@, self.analysis@)
    }
}

impl Record for FiledAnalysis {
    open spec fn key_of(v: (Seq<char>, AnalysisView)) -> Seq<char> {
        v.0
    }

    fn key(&self) -> (r: &str) {
        self.id.as_str()
    }

    fn duplicate(&self) -> (r: Self) {
        FiledAnalysis { id: self.id.clone(), analysis: self.analysis.duplicate() }
    }
}

/// How images are generated.
#[derive(Debug)]
pub struct ImageConfig {
    pub model: String,
    pub default_width: u32,
    pub default_height: u32,
    pub default_format: String,
}

/// Counts over images and analyses, and the generation settings.
#[derive(Debug)]
pub struct ImageStats {
    pub total_generated_images: usize,
    pub total_analyses: usize,
    pub model: String,
    pub default_size: String,
}

/// The analysis made of `path` with `prompt` (a detailed description unless given).
pub open spec fn analysis_of(path: Seq<char>, prompt: Option<Seq<char>>) -> AnalysisView {
    AnalysisView {
        image_path: path,
        description: "Analysis of image: "@ + path + ". Prompt: "@
            + match prompt { Some(p) => p, None => "Describe this image in detail"@ },
        objects: seq!["object1"@, "object2"@],
        colors: seq!["blue"@, "green"@],
        confidence_bits: ANALYSIS_CONFIDENCE_BITS,
    }
}

/// The values of some analyses.
pub open spec fn analysis_views(v: Seq<ImageAnalysis>) -> Seq<AnalysisView> {
    v.map_values(|a: ImageAnalysis| a@)
}

/// The analyses by the ids they were filed under.
pub open spec fn filed_analyses(m: Map<Seq<char>, (Seq<char>, AnalysisView)>) -> Map<Seq<char>, AnalysisView> {
    m.map_values(|e: (Seq<char>, AnalysisView)| e.1)
}

/// Generated images by id, analyses by id, and the generation settings.
pub struct ImageManager {
    generated_images: Store<GeneratedImage>,
    analyses: Store<FiledAnalysis>,
    config: ImageConfig,
}

impl ImageManager {
    /// The generated images, by id.
    pub closed spec fn images_view(&self) -> Map<Seq<char>, ImageView> {
        self.generated_images.view_map()
    }

    /// The analyses, by id.
    pub closed spec fn analyses_view(&self) -> Map<Seq<char>, (Seq<char>, AnalysisView)> {
        self.analyses.view_map()
    }

    /// The generation settings: model, default width and height, default format.
    pub closed spec fn config_view(&self) -> (Seq<char>, u32, u32, Seq<char>) {
        (self.config.model@, self.config.default_width, self.config.default_height, self.config.default_format@)
    }

    /// The manager's invariant: each id is held once in each table.
    pub closed spec fn wf(&self) -> bool {
        self.generated_images.wf() && self.analyses.wf()
    }

    /// No images and no analyses, with the given settings.
    pub fn new(config: ImageConfig) -> (r: Self)
        ensures
            r.wf(),
            r.images_view() == Map::<Seq<char>, ImageView>::empty(),
            r.analyses_view() == Map::<Seq<char>, (Seq<char>, AnalysisView)>::empty(),
            r.config_view() == (config.model@, config.default_width, config.default_height, config.default_format@),
    {
        ImageManager { generated_images: Store::new(), analyses: Store::new(), config }
    }

    /// Generates an image of `prompt` under `id`, at `now`, of the given size (the default
    /// size where not given) in the default format, stored at `/tmp/images/<id>.<format>`;
    /// returns the id.
    pub fn generate_image_at(&mut self, prompt: &str, width: Option<u32>, height: Option<u32>, id: String, now: i64) -> (r: Result<String, AppError>)
        requires
            old(self).wf(),
        ensures
            final(self).wf(),
            final(self).config_view() == old(self).config_view(),
            final(self).analyses_view() == old(self).analyses_view(),
            r == Ok::<String, AppError>(id),
            final(self).images_view() == old(self).images_view().insert(id@, ImageView {
                id: id@,
                prompt: prompt@,
                width: match width { Some(w) => w, None => old(self).config_view().1 },
                height: match height { Some(h) => h, None => old(self).config_view().2 },
                format: old(self).config_view().3,
                path: "/tmp/images/"@ + id@ + "."@ + old(self).config_view().3,
                created_at: now,
            }),
    {
        let w = match width {
            Some(w) => w,
            None => self.config.default_width,
        };
        let h = match height {
            Some(h) => h,
            None => self.config.default_height,
        };
        let mut path = concat3("/tmp/images/", id.as_str(), ".");
        push_str(&mut path, self.config.default_format.as_str());
        let img = GeneratedImage {
            id: id.clone(),
            prompt: str_to_string(prompt),
            width: w,
            height: h,
            format: self.config.default_format.clone(),
            path,
            created_at: now,
        };
        self.generated_images.insert(img);
        Ok(id)
    }

    /// Generates an image of `prompt` under a fresh random id, now; see `generate_image_at`.
    pub fn generate_image(&mut self, prompt: &str, width: Option<u32>, height: Option<u32>) -> (r: Result<String, AppError>)
        requires
            old(self).wf(),
        ensures
            final(self).wf(),
            final(self).config_view() == old(self).config_view(),
            final(self).analyses_view() == old(self).analyses_view(),
            r is Ok,
            match r {
                Ok(id) => final(self).images_view().dom().contains(id@)
                    && final(self).images_view()[id@].created_at < MAX_TIMESTAMP
                    && final(self).images_view() == old(self).images_view().insert(id@, ImageView {
                        id: id@,
                        prompt: prompt@,
                        width: match width { Some(w) => w, None => old(self).config_view().1 },
                        height: match height { Some(h) => h, None => old(self).config_view().2 },
                        format: old(self).config_view().3,
                        path: "/tmp/images/"@ + id@ + "."@ + old(self).config_view().3,
                        created_at: final(self).images_view()[id@].created_at,
                    }),
                Err(_) => false,
            },
    {
        let id = new_uuid();
        let now = now_timestamp();
        self.generate_image_at(prompt, width, height, id, now)
    }

    /// Analyzes the image at `image_path` with `analysis_prompt`, filing the analysis
    /// under `id`; returns the id.
    pub fn analyze_image_as(&mut self, image_path: &str, analysis_prompt: Option<&str>, id: String) -> (r: Result<String, AppError>)
        requires
            old(self).wf(),
        ensures
            final(self).wf(),
            final(self).config_view() == old(self).config_view(),
            final(self).images_view() == old(self).images_view(),
            r == Ok::<String, AppError>(id),
            final(self).analyses_view() == old(self).analyses_view().insert(id@,
                (id@, analysis_of(image_path@, match analysis_prompt { Some(p) => Some(p@), None => None }))),
    {
        let prompt = match analysis_prompt {
            Some(p) => p,
            None => "Describe this image in detail",
        };
        let mut description = concat3("Analysis of image: ", image_path, ". Prompt: ");
        push_str(&mut description, prompt);
        let mut objects: Vec<String> = Vec::new();
        objects.push(str_to_string("object1"));
        objects.push(str_to_string("object2"));
        let mut colors: Vec<String> = Vec::new();
        colors.push(str_to_string("blue"));
        colors.push(str_to_string("green"));
        let analysis = ImageAnalysis {
            image_path: str_to_string(image_path),
            description,
            objects,
            colors,
            confidence_bits: ANALYSIS_CONFIDENCE_BITS,
        };
        assert(analysis@.objects =~= seq!["object1"@, "object2"@]);
        assert(analysis@.colors =~= seq!["blue"@, "green"@]);
        assert(analysis@ == analysis_of(image_path@, match analysis_prompt { Some(p) => Some(p@), None => None }));
        self.analyses.insert(FiledAnalysis { id: id.clone(), analysis });
        Ok(id)
    }

    /// Analyzes the image at `image_path`, filing the analysis under a fresh random id.
    pub fn analyze_image(&mut self, image_path: &str, analysis_prompt: Option<&str>) -> (r: Result<String, AppError>)
        requires
            old(self).wf(),
        ensures
            final(self).wf(),
            final(self).config_view() == old(self).config_view(),
            final(self).images_view() == old(self).images_view(),
            r is Ok,
            match r {
                Ok(id) => final(self).analyses_view() == old(self).analyses_view().insert(id@,
                    (id@, analysis_of(image_path@, match analysis_prompt { Some(p) => Some(p@), None => None }))),
                Err(_) => false,
            },
    {
        let id = new_uuid();
        self.analyze_image_as(image_path, analysis_prompt, id)
    }

    /// The generated image `id`, if there is one.
    pub fn get_generated_image(&self, id: &str) -> (r: Option<GeneratedImage>)
        requires
            self.wf(),
        ensures
            match r {
                Some(i) => self.images_view().dom().contains(id@) && i@ == self.images_view()[id@],
                None => !self.images_view().dom().contains(id@),
            },
    {
        self.generated_images.get_copy(id)
    }

    /// The analysis `id`, if there is one.
    pub fn get_analysis(&self, id: &str) -> (r: Option<ImageAnalysis>)
        requires
            self.wf(),
        ensures
            match r {
                Some(a) => self.analyses_view().dom().contains(id@) && a@ == self.analyses_view()[id@].1,
                None => !self.analyses_view().dom().contains(id@),
            },
    {
        match self.analyses.get(id) {
            Some(f) => Some(f.analysis.duplicate()),
            None => None,
        }
    }

    /// Every generated image, once each.
    pub fn list_generated_images(&self) -> (r: Vec<GeneratedImage>)
        requires
            self.wf(),
        ensures
            lists_map(record_entries(r@).map_values(|e: (Seq<char>, ImageView)| e.0), r@.map_values(|x: GeneratedImage| x@), self.images_view()),
    {
        self.generated_images.values()
    }

    /// Every analysis, once each, with the ids they were filed under.
    pub fn list_analyses(&self) -> (r: Vec<ImageAnalysis>)
        requires
            self.wf(),
        ensures
            exists|keys: Seq<Seq<char>>| #[trigger] lists_map(keys, analysis_views(r@), filed_analyses(self.analyses_view())),
    {
        let filed = self.analyses.values();
        let ghost keys = record_entries(filed@).map_values(|e: (Seq<char>, (Seq<char>, AnalysisView))| e.0);
        let ghost vals = filed@.map_values(|x: FiledAnalysis| x@);
        let ghost m = self.analyses_view();
        let mut out: Vec<ImageAnalysis> = Vec::new();
        let mut i: usize = 0;
        while i < filed.len()
            invariant
                i <= filed@.len(),
                out@.len() == i,
                forall|j: int| 0 <= j < i ==> #[trigger] out@[j]@ == filed@[j]@.1,
            decreases filed.len() - i,
        {
            out.push(filed[i].analysis.duplicate());
            i = i + 1;
        }
        proof {
            let fm = filed_analyses(m);
            let ov = analysis_views(out@);
            assert(lists_map(keys, vals, m));
            assert forall|j: int| 0 <= j < keys.len() implies #[trigger] fm.dom().contains(keys[j]) && fm[keys[j]] == ov[j] by {
                assert(0 <= j < keys.len());
                assert(m.dom().contains(keys[j]));
                assert(m[keys[j]] == vals[j]);
                assert(vals[j] == filed@[j]@);
                assert(ov[j] == out@[j]@);
            }
            assert forall|k: Seq<char>| #[trigger] fm.dom().contains(k) implies keys.contains(k) by {
                assert(m.dom().contains(k));
            }
            assert(fm.dom() =~= m.dom());
            assert(lists_map(keys, ov, fm));
        }
        out
    }

    /// How many images and analyses there are, the model, and the default size as
    /// `<width>x<height>`.
    pub fn get_stats(&self) -> (r: ImageStats)
        requires
            self.wf(),
        ensures
            r.total_generated_images == self.images_view().dom().len(),
            r.total_analyses == self.analyses_view().dom().len(),
            r.model@ == self.config_view().0,
            r.default_size@ == nat_decimal(self.config_view().1 as nat) + "x"@ + nat_decimal(self.config_view().2 as nat),
    {
        let mut size = String::new();
        push_u64_decimal(&mut size, self.config.default_width as u64);
        push_str(&mut size, "x");
        push_u64_decimal(&mut size, self.config.default_height as u64);
        assert(size@ =~= nat_decimal(self.config_view().1 as nat) + "x"@ + nat_decimal(self.config_view().2 as nat));
        ImageStats {
            total_generated_images: self.generated_images.len(),
            total_analyses: self.analyses.len(),
            model: self.config.model.clone(),
            default_size: size,
        }
    }
}

} // verus!
