//! The Markdown document of a post.

use crate::calendar::{post_path, post_path_text};
use crate::form::{entry_views, FormView, ImageEntryView, ImageMetadata, ImageMetadataView, UploadForm};
use crate::slug::{create_file_name_safe_title, slug_text};
use crate::text::{trim_end, trim_end_text};
use vstd::prelude::*;

verus! {

/// The front matter: title, date, categories and the feature image, then the
/// Strava activity if there is one.
pub open spec fn front_matter(form: FormView) -> Seq<char> {
    "---\ntitle: \""@ + form.title + "\"\ndate: \""@ + form.date + "\"\ncategories: \""@
        + form.categories + "\"\nfeature:\n  image: \""@ + form.feature.image_url + "\"\n"@ + (
    if form.strava.len() > 0 {
        "strava: \""@ + form.strava + "\""@
    } else {
        Seq::empty()
    }) + "\n---\n\n"@
}

/// The link to the place of an image, empty if the place is not known.
pub open spec fn place_link(image: ImageMetadataView) -> Seq<char> {
    if image.location.len() > 0 {
        "["@ + image.location + "](https://www.google.com/maps/place/"@ + image.coordinates
            + "): "@
    } else {
        Seq::empty()
    }
}

/// The caption line of an image, empty if it has no caption.
pub open spec fn caption_line(image: ImageMetadataView) -> Seq<char> {
    if image.caption.len() > 0 {
        "\n*"@ + place_link(image) + image.caption + "*\n"@
    } else {
        Seq::empty()
    }
}

/// The description paragraph of an image, empty if it has no description.
pub open spec fn description_paragraph(image: ImageMetadataView) -> Seq<char> {
    if image.description.len() > 0 {
        "\n"@ + image.description + "\n"@
    } else {
        Seq::empty()
    }
}

/// What the body holds for one image: the image reference, the caption line
/// and the description paragraph.
pub open spec fn image_block(image: ImageMetadataView) -> Seq<char> {
    "\n!["@ + image.alt_text + "]("@ + image.image_url + ")"@ + caption_line(image)
        + description_paragraph(image) + "\n"@
}

/// The body: the blocks of the images in order, without the image that
/// stands under the feature key.
pub open spec fn body_text(images: Seq<ImageEntryView>, feature_key: Seq<char>) -> Seq<char>
    decreases images.len(),
{
    if images.len() == 0 {
        Seq::empty()
    } else if images.last().key == feature_key {
        body_text(images.drop_last(), feature_key)
    } else {
        body_text(images.drop_last(), feature_key) + image_block(images.last().metadata)
    }
}

/// The Markdown document of a record.
pub open spec fn markdown_text(form: FormView) -> Seq<char> {
    front_matter(form) + body_text(form.images, form.feature.file_name)
}

fn push_front_matter(out: &mut String, form: &UploadForm)
    ensures
        final(out)@ == old(out)@ + front_matter(form@),
{
    out.append("---\ntitle: \"");
    out.append(form.title.as_str());
    out.append("\"\ndate: \"");
    out.append(form.date.as_str());
    out.append("\"\ncategories: \"");
    out.append(form.categories.as_str());
    out.append("\"\nfeature:\n  image: \"");
    out.append(form.feature.image_url.as_str());
    out.append("\"\n");
    if !form.strava.as_str().is_empty() {
        out.append("strava: \"");
        out.append(form.strava.as_str());
        out.append("\"");
    }
    out.append("\n---\n\n");
    proof {
        let f = form@;
        let strava = if f.strava.len() > 0 {
            "strava: \""@ + f.strava + "\""@
        } else {
            Seq::<char>::empty()
        };
        assert(out@ =~= old(out)@ + ("---\ntitle: \""@ + f.title + "\"\ndate: \""@ + f.date
            + "\"\ncategories: \""@ + f.categories + "\"\nfeature:\n  image: \""@
            + f.feature.image_url + "\"\n"@ + strava + "\n---\n\n"@));
    }
}

fn push_place_link(out: &mut String, image: &ImageMetadata)
    ensures
        final(out)@ == old(out)@ + place_link(image@),
{
    if !image.location.as_str().is_empty() {
        out.append("[");
        out.append(image.location.as_str());
        out.append("](https://www.google.com/maps/place/");
        out.append(image.coordinates.as_str());
        out.append("): ");
        proof {
            let m = image@;
            assert(out@ =~= old(out)@ + ("["@ + m.location
                + "](https://www.google.com/maps/place/"@ + m.coordinates + "): "@));
        }
    } else {
        proof {
            assert(out@ =~= old(out)@ + Seq::<char>::empty());
        }
    }
}

fn push_caption_line(out: &mut String, image: &ImageMetadata)
    ensures
        final(out)@ == old(out)@ + caption_line(image@),
{
    if !image.caption.as_str().is_empty() {
        out.append("\n*");
        push_place_link(out, image);
        out.append(image.caption.as_str());
        out.append("*\n");
        proof {
            let m = image@;
            assert(out@ =~= old(out)@ + ("\n*"@ + place_link(m) + m.caption + "*\n"@));
        }
    } else {
        proof {
            assert(out@ =~= old(out)@ + Seq::<char>::empty());
        }
    }
}

fn push_description_paragraph(out: &mut String, image: &ImageMetadata)
    ensures
        final(out)@ == old(out)@ + description_paragraph(image@),
{
    if !image.description.as_str().is_empty() {
        out.append("\n");
        out.append(image.description.as_str());
        out.append("\n");
        proof {
            let m = image@;
            assert(out@ =~= old(out)@ + ("\n"@ + m.description + "\n"@));
        }
    } else {
        proof {
            assert(out@ =~= old(out)@ + Seq::<char>::empty());
        }
    }
}

fn push_image_block(out: &mut String, image: &ImageMetadata)
    ensures
        final(out)@ == old(out)@ + image_block(image@),
{
    out.append("\n![");
    out.append(image.alt_text.as_str());
    out.append("](");
    out.append(image.image_url.as_str());
    out.append(")");
    push_caption_line(out, image);
    push_description_paragraph(out, image);
    out.append("\n");
    proof {
        let m = image@;
        assert(out@ =~= old(out)@ + ("\n!["@ + m.alt_text + "]("@ + m.image_url + ")"@
            + caption_line(m) + description_paragraph(m) + "\n"@));
    }
}

/// The slug and the Markdown document of a record. The result is always
/// `Ok`.
pub fn render(upload_form: &UploadForm) -> (r: Result<(String, String), String>)
    ensures
        r matches Ok((slug, markdown)) && slug@ == slug_text(upload_form@.title) && markdown@
            == markdown_text(upload_form@),
{
    let mut out = String::new();
    push_front_matter(&mut out, upload_form);
    let ghost images = upload_form@.images;
    let ghost feature_key = upload_form@.feature.file_name;
    let ghost front = out@;
    let mut i: usize = 0;
    proof {
        assert(out@ =~= front_matter(upload_form@));
        assert(front + body_text(images.take(0), feature_key) =~= front);
    }
    while i < upload_form.images.len()
        invariant
            i <= upload_form.images.len(),
            images == entry_views(upload_form.images@),
            feature_key == upload_form.feature.file_name@,
            out@ == front + body_text(images.take(i as int), feature_key),
        decreases upload_form.images.len() - i,
    {
        proof {
            assert(images.take(i + 1).drop_last() == images.take(i as int));
            assert(images.take(i + 1).last() == images[i as int]);
        }
        if !upload_form.images[i].key.eq(&upload_form.feature.file_name) {
            push_image_block(&mut out, &upload_form.images[i].metadata);
            proof {
                assert(front + body_text(images.take(i as int), feature_key) + image_block(
                    images[i as int].metadata,
                ) =~= front + body_text(images.take(i + 1), feature_key));
            }
        }
        i += 1;
    }
    proof {
        assert(images.take(upload_form.images.len() as int) == images);
    }
    let slug = create_file_name_safe_title(upload_form.title.as_str());
    Ok((slug, out))
}

/// A post that is ready to be written into the working copy.
#[derive(Debug, PartialEq, Eq)]
pub struct Post {
    pub slug: String,
    /// The path of the file, from the root of the content repository.
    pub path: String,
    /// The document, without white space at its end.
    pub contents: String,
}

pub struct PostView {
    pub slug: Seq<char>,
    pub path: Seq<char>,
    pub contents: Seq<char>,
}

impl View for Post {
    type V = PostView;

    open spec fn view(&self) -> PostView {
        PostView { slug: self.slug@, path: self.path@, contents: self.contents@ }
    }
}

/// The post of a record: its slug, its path under `_posts/` and its
/// document without white space at the end.
pub open spec fn post_of(form: FormView) -> PostView {
    PostView {
        slug: slug_text(form.title),
        path: post_path_text(form.date, slug_text(form.title)),
        contents: trim_end_text(markdown_text(form)),
    }
}

/// Renders the post of a record.
pub fn create_post(upload_form: &UploadForm) -> (post: Post)
    ensures
        post@ == post_of(upload_form@),
{
    match render(upload_form) {
        Ok((slug, markdown)) => {
            let path = post_path(upload_form.date.as_str(), slug.as_str());
            let contents = trim_end(markdown.as_str());
            Post { slug, path, contents }
        },
        Err(_) => {
            proof {
                assert(false);
            }
            Post { slug: String::new(), path: String::new(), contents: String::new() }
        },
    }
}

} // verus!
