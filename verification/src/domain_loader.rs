//! Assembling the domain tree from discovered data. Reading the environment
//! and querying the remote API happen outside the library; this module turns
//! what they hand back into the domain model.

use vstd::prelude::*;
use vstd::string::StringExecFns;

use crate::confluence::{host_of, url_host, ConfluenceSpace};
use crate::models::{
    project_views, AtlassianDomain, AtlassianProduct, ProductType, Project, ProjectView,
};

verus! {

broadcast use vstd::std_specs::vec::group_vec_axioms;

/// The display name of a domain: the host its base URL names, or the URL
/// itself when no host can be read from it.
pub open spec fn spec_domain_name(base_url: Seq<char>) -> Seq<char> {
    match host_of(base_url) {
        Some(h) => h,
        None => base_url,
    }
}

/// Extract a domain's display name from its base URL.
pub fn domain_name_from_url(base_url: &str) -> (r: String)
    ensures
        r@ == spec_domain_name(base_url@),
{
    match url_host(base_url) {
        Some(host) => host,
        None => base_url.to_owned(),
    }
}

/// The project a discovered space stands as: its description is the plain
/// text one, when it carries any; its type is "space".
pub open spec fn spec_space_project(s: ConfluenceSpace) -> ProjectView {
    ProjectView {
        id: s.id@,
        name: s.name@,
        key: s.key@,
        description: match s.description {
            Some(d) => match d.plain {
                Some(p) => Some(p.value@),
                None => None,
            },
            None => None,
        },
        project_type: "space"@,
    }
}

/// The Confluence product the discovered spaces make up: available, one
/// project per space, in order.
pub fn confluence_product_from_spaces(spaces: Vec<ConfluenceSpace>) -> (r: AtlassianProduct)
    ensures
        r@.product_type == ProductType::Confluence,
        r@.name == "Confluence"@,
        r@.available,
        r@.projects.len() == spaces@.len(),
        forall|i: int|
            0 <= i < spaces@.len() ==> r@.projects[i] == spec_space_project(spaces@[i]),
{
    let mut projects: Vec<Project> = Vec::new();
    let mut i: usize = 0;
    while i < spaces.len()
        invariant
            i <= spaces@.len(),
            projects@.len() == i,
            forall|k: int|
                0 <= k < i ==> (#[trigger] projects@[k])@ == spec_space_project(spaces@[k]),
        decreases spaces@.len() - i,
    {
        let space = &spaces[i];
        let description = match &space.description {
            Some(d) => match &d.plain {
                Some(p) => Some(p.value.clone()),
                None => None,
            },
            None => None,
        };
        projects.push(
            Project {
                id: space.id.clone(),
                name: space.name.clone(),
                key: space.key.clone(),
                description,
                project_type: String::from_str("space"),
            },
        );
        i = i + 1;
    }
    let r = AtlassianProduct {
        product_type: ProductType::Confluence,
        name: String::from_str("Confluence"),
        projects,
        available: true,
    };
    proof {
        assert(project_views(r.projects@) =~= project_views(r.projects@));
    }
    r
}

/// The Confluence product a failed discovery degrades to: unavailable, with
/// the error text embedded in its display name.
pub fn unavailable_confluence_product(error_text: &str) -> (r: AtlassianProduct)
    ensures
        r@.product_type == ProductType::Confluence,
        r@.name == "Confluence (Error: "@ + error_text@ + ")"@,
        !r@.available,
        r@.projects.len() == 0,
{
    let mut name = String::from_str("Confluence (Error: ");
    name.append(error_text);
    name.append(")");
    let r = AtlassianProduct {
        product_type: ProductType::Confluence,
        name,
        projects: Vec::new(),
        available: false,
    };
    proof {
        assert(project_views(r.projects@) =~= Seq::<ProjectView>::empty());
    }
    r
}

/// The placeholder for a product that is not served yet.
pub fn placeholder_product(product_type: ProductType, name: &str) -> (r: AtlassianProduct)
    ensures
        r@.product_type == product_type,
        r@.name == name@,
        !r@.available,
        r@.projects.len() == 0,
{
    let r = AtlassianProduct {
        product_type,
        name: name.to_owned(),
        projects: Vec::new(),
        available: false,
    };
    proof {
        assert(project_views(r.projects@) =~= Seq::<ProjectView>::empty());
    }
    r
}

/// Assemble the domain from its base URL and the discovered Confluence
/// product: the domain is named by its host, and carries the Confluence
/// product first, then the placeholders for the products not served yet.
pub fn assemble_domain(base_url: String, confluence: AtlassianProduct) -> (r: AtlassianDomain)
    ensures
        r@.name == spec_domain_name(base_url@),
        r@.base_url == base_url@,
        r@.products.len() == 3,
        r@.products[0] == confluence@,
        r@.products[1].product_type == ProductType::Jira,
        r@.products[1].name == "Jira (coming soon)"@,
        !r@.products[1].available,
        r@.products[1].projects.len() == 0,
        r@.products[2].product_type == ProductType::Jsm,
        r@.products[2].name == "Jira Service Management (coming soon)"@,
        !r@.products[2].available,
        r@.products[2].projects.len() == 0,
{
    let name = domain_name_from_url(base_url.as_str());
    let mut products: Vec<AtlassianProduct> = Vec::new();
    products.push(confluence);
    products.push(placeholder_product(ProductType::Jira, "Jira (coming soon)"));
    products.push(
        placeholder_product(ProductType::Jsm, "Jira Service Management (coming soon)"),
    );
    AtlassianDomain { name, base_url, products }
}

} // verus!
