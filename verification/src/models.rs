//! Data models for the hierarchical navigation engine.
//!
//! Every executable type has a mathematical view (`...View`) over which the
//! contracts of the crate are stated.

use vstd::prelude::*;
use vstd::string::StringExecFns;

verus! {

broadcast use vstd::std_specs::vec::group_vec_axioms;

/// Kinds of products that can appear under a domain.
#[derive(Debug, Clone, Copy, PartialEq, Eq, Structural)]
pub enum ProductType {
    Confluence,
    Jira,
    Jsm,
}

impl ProductType {
    /// Human-readable name of the product kind.
    pub fn display_name(&self) -> (r: &'static str)
        ensures
            *self == ProductType::Confluence ==> r@ == "Confluence"@,
            *self == ProductType::Jira ==> r@ == "Jira"@,
            *self == ProductType::Jsm ==> r@ == "Jira Service Management"@,
    {
        match self {
            ProductType::Confluence => "Confluence",
            ProductType::Jira => "Jira",
            ProductType::Jsm => "Jira Service Management",
        }
    }

    /// REST entry point of the product kind.
    pub fn api_path(&self) -> (r: &'static str)
        ensures
            *self == ProductType::Confluence ==> r@ == "/wiki/rest/api"@,
            *self == ProductType::Jira ==> r@ == "/rest/api/2"@,
            *self == ProductType::Jsm ==> r@ == "/rest/servicedeskapi"@,
    {
        match self {
            ProductType::Confluence => "/wiki/rest/api",
            ProductType::Jira => "/rest/api/2",
            ProductType::Jsm => "/rest/servicedeskapi",
        }
    }
}

/// Mathematical view of a [`Project`].
#[verifier::ext_equal]
pub struct ProjectView {
    pub id: Seq<char>,
    pub name: Seq<char>,
    pub key: Seq<char>,
    pub description: Option<Seq<char>>,
    pub project_type: Seq<char>,
}

/// A project or space within a product.
#[derive(Debug, PartialEq)]
pub struct Project {
    /// Project/space ID.
    pub id: String,
    /// Project/space name.
    pub name: String,
    /// Project/space key.
    pub key: String,
    /// Project description.
    pub description: Option<String>,
    /// Project type (for different project contexts).
    pub project_type: String,
}

impl View for Project {
    type V = ProjectView;

    open spec fn view(&self) -> ProjectView {
        ProjectView {
            id: self.id@,
            name: self.name@,
            key: self.key@,
            description: match self.description {
                Some(d) => Some(d@),
                None => None,
            },
            project_type: self.project_type@,
        }
    }
}

impl Clone for Project {
    fn clone(&self) -> (r: Self)
        ensures
            r@ == self@,
    {
        Project {
            id: self.id.clone(),
            name: self.name.clone(),
            key: self.key.clone(),
            description: match &self.description {
                Some(d) => Some(d.clone()),
                None => None,
            },
            project_type: self.project_type.clone(),
        }
    }
}


/// The views of the projects of a vector, in order.
pub open spec fn project_views(s: Seq<Project>) -> Seq<ProjectView> {
    s.map_values(|p: Project| p@)
}

/// The views of the products of a vector, in order.
pub open spec fn product_views(s: Seq<AtlassianProduct>) -> Seq<AtlassianProductView> {
    s.map_values(|p: AtlassianProduct| p@)
}

/// Mathematical view of an [`AtlassianProduct`].
#[verifier::ext_equal]
pub struct AtlassianProductView {
    pub product_type: ProductType,
    pub name: Seq<char>,
    pub projects: Seq<ProjectView>,
    pub available: bool,
}

/// An Atlassian product (Confluence, Jira, JSM) and what it offers.
#[derive(Debug, PartialEq)]
pub struct AtlassianProduct {
    /// Product type.
    pub product_type: ProductType,
    /// Product name for display.
    pub name: String,
    /// Available projects/spaces in this product.
    pub projects: Vec<Project>,
    /// Whether this product is available/accessible.
    pub available: bool,
}

impl View for AtlassianProduct {
    type V = AtlassianProductView;

    open spec fn view(&self) -> AtlassianProductView {
        AtlassianProductView {
            product_type: self.product_type,
            name: self.name@,
            projects: project_views(self.projects@),
            available: self.available,
        }
    }
}

impl Clone for AtlassianProduct {
    fn clone(&self) -> (r: Self)
        ensures
            r@ == self@,
    {
        let mut projects: Vec<Project> = Vec::new();
        let mut i: usize = 0;
        while i < self.projects.len()
            invariant
                i <= self.projects.len(),
                projects@.len() == i,
                forall|j: int| 0 <= j < i ==> (#[trigger] projects@[j])@ == self.projects@[j]@,
            decreases self.projects.len() - i,
        {
            projects.push(self.projects[i].clone());
            i = i + 1;
        }
        let r = AtlassianProduct {
            product_type: self.product_type,
            name: self.name.clone(),
            projects,
            available: self.available,
        };
        proof {
            assert(project_views(projects@) =~= project_views(self.projects@));
            assert(r@ =~= self@);
        }
        r
    }
}

/// Mathematical view of an [`AtlassianDomain`].
#[verifier::ext_equal]
pub struct AtlassianDomainView {
    pub name: Seq<char>,
    pub base_url: Seq<char>,
    pub products: Seq<AtlassianProductView>,
}

/// An Atlassian domain/environment.
#[derive(Debug, PartialEq)]
pub struct AtlassianDomain {
    /// Domain name/URL.
    pub name: String,
    /// Base URL for the domain.
    pub base_url: String,
    /// Available products in this domain.
    pub products: Vec<AtlassianProduct>,
}

impl View for AtlassianDomain {
    type V = AtlassianDomainView;

    open spec fn view(&self) -> AtlassianDomainView {
        AtlassianDomainView {
            name: self.name@,
            base_url: self.base_url@,
            products: product_views(self.products@),
        }
    }
}

impl Clone for AtlassianDomain {
    fn clone(&self) -> (r: Self)
        ensures
            r@ == self@,
    {
        let mut products: Vec<AtlassianProduct> = Vec::new();
        let mut i: usize = 0;
        while i < self.products.len()
            invariant
                i <= self.products.len(),
                products@.len() == i,
                forall|j: int| 0 <= j < i ==> (#[trigger] products@[j])@ == self.products@[j]@,
            decreases self.products.len() - i,
        {
            products.push(self.products[i].clone());
            i = i + 1;
        }
        let r = AtlassianDomain {
            name: self.name.clone(),
            base_url: self.base_url.clone(),
            products,
        };
        proof {
            assert(product_views(products@) =~= product_views(self.products@));
            assert(r@ =~= self@);
        }
        r
    }
}

/// Mathematical view of a [`NavigationContext`].
#[verifier::ext_equal]
pub struct NavigationContextView {
    pub domain: Option<AtlassianDomainView>,
    pub product: Option<AtlassianProductView>,
    pub project: Option<ProjectView>,
}

impl NavigationContextView {
    /// Whether domain, product and project are all set.
    pub open spec fn complete(self) -> bool {
        self.domain is Some && self.product is Some && self.project is Some
    }

    /// The query fragment the selection stands for, when it is complete.
    pub open spec fn cql(self) -> Option<Seq<char>> {
        if self.complete() {
            let key = self.project->0.key;
            match self.product->0.product_type {
                ProductType::Confluence => Some("space = \""@ + key + "\""@),
                ProductType::Jira => Some("project = \""@ + key + "\""@),
                ProductType::Jsm => Some("project = \""@ + key + "\""@),
            }
        } else {
            None
        }
    }

    /// The names of the selected entities, outermost first.
    pub open spec fn path_parts(self) -> Seq<Seq<char>> {
        let d: Seq<Seq<char>> = if self.domain is Some {
            seq![self.domain->0.name]
        } else {
            seq![]
        };
        let p: Seq<Seq<char>> = if self.product is Some {
            seq![self.product->0.name]
        } else {
            seq![]
        };
        let j: Seq<Seq<char>> = if self.project is Some {
            seq![self.project->0.name]
        } else {
            seq![]
        };
        d + p + j
    }
}

/// The resolved selection of the navigation: domain, product and project.
#[derive(Debug, PartialEq)]
pub struct NavigationContext {
    /// Currently selected domain.
    pub domain: Option<AtlassianDomain>,
    /// Currently selected product.
    pub product: Option<AtlassianProduct>,
    /// Currently selected project/space.
    pub project: Option<Project>,
}

impl View for NavigationContext {
    type V = NavigationContextView;

    open spec fn view(&self) -> NavigationContextView {
        NavigationContextView {
            domain: match self.domain {
                Some(d) => Some(d@),
                None => None,
            },
            product: match self.product {
                Some(p) => Some(p@),
                None => None,
            },
            project: match self.project {
                Some(p) => Some(p@),
                None => None,
            },
        }
    }
}

impl Clone for NavigationContext {
    fn clone(&self) -> (r: Self)
        ensures
            r@ == self@,
    {
        let r = NavigationContext {
            domain: match &self.domain {
                Some(d) => Some(d.clone()),
                None => None,
            },
            product: match &self.product {
                Some(p) => Some(p.clone()),
                None => None,
            },
            project: match &self.project {
                Some(p) => Some(p.clone()),
                None => None,
            },
        };
        proof {
            assert(r@ =~= self@);
        }
        r
    }
}

impl NavigationContext {
    pub fn new() -> (r: Self)
        ensures
            r@.domain is None,
            r@.product is None,
            r@.project is None,
    {
        NavigationContext { domain: None, product: None, project: None }
    }

    /// Check if we have a complete context (domain + product + project).
    pub fn is_complete(&self) -> (r: bool)
        ensures
            r == self@.complete(),
    {
        self.domain.is_some() && self.product.is_some() && self.project.is_some()
    }

    /// Get a display string for the current context.
    pub fn display_path(&self) -> (r: String)
        ensures
            self@.path_parts().len() == 0 ==> r@ == "No selection"@,
            self@.path_parts().len() > 0 ==> r@ == crate::strutil::join_with(
                self@.path_parts(),
                " > "@,
            ),
    {
        let mut parts: Vec<String> = Vec::new();

        if let Some(domain) = &self.domain {
            parts.push(domain.name.clone());
        }
        if let Some(product) = &self.product {
            parts.push(product.name.clone());
        }
        if let Some(project) = &self.project {
            parts.push(project.name.clone());
        }

        proof {
            assert(parts@.map_values(|s: String| s@) =~= self@.path_parts());
        }

        if parts.is_empty() {
            String::from_str("No selection")
        } else {
            crate::strutil::join_strings(&parts, " > ")
        }
    }

    /// Generate a CQL context prefix for commands.
    ///
    /// Returns the fragment exactly when the context is complete.
    pub fn cql_context(&self) -> (r: Option<String>)
        ensures
            r is Some <==> self@.complete(),
            r is Some ==> Some(r->0@) == self@.cql(),
            r is None ==> self@.cql() is None,
    {
        if self.domain.is_some() && self.product.is_some() && self.project.is_some() {
            let product = self.product.as_ref().unwrap();
            let project = self.project.as_ref().unwrap();
            let mut s = String::new();
            match product.product_type {
                ProductType::Confluence => {
                    s.append("space = \"");
                },
                ProductType::Jira => {
                    s.append("project = \"");
                },
                ProductType::Jsm => {
                    s.append("project = \"");
                },
            }
            s.append(project.key.as_str());
            s.append("\"");
            Some(s)
        } else {
            None
        }
    }
}

/// The law the context obeys across its two read operations: the query
/// fragment is defined exactly when the context is complete.
pub proof fn lemma_cql_defined_iff_complete(ctx: NavigationContextView)
    ensures
        ctx.cql() is Some <==> ctx.complete(),
{
}

/// Mathematical view of a [`TreeNodeType`].
#[verifier::ext_equal]
pub enum TreeNodeTypeView {
    Domain(AtlassianDomainView),
    Product(AtlassianProductView),
    Project(ProjectView),
}

/// The payload of a tree node.
#[derive(Debug, PartialEq)]
pub enum TreeNodeType {
    Domain(AtlassianDomain),
    Product(AtlassianProduct),
    Project(Project),
}

impl View for TreeNodeType {
    type V = TreeNodeTypeView;

    open spec fn view(&self) -> TreeNodeTypeView {
        match self {
            TreeNodeType::Domain(d) => TreeNodeTypeView::Domain(d@),
            TreeNodeType::Product(p) => TreeNodeTypeView::Product(p@),
            TreeNodeType::Project(p) => TreeNodeTypeView::Project(p@),
        }
    }
}

impl Clone for TreeNodeType {
    fn clone(&self) -> (r: Self)
        ensures
            r@ == self@,
    {
        match self {
            TreeNodeType::Domain(d) => TreeNodeType::Domain(d.clone()),
            TreeNodeType::Product(p) => TreeNodeType::Product(p.clone()),
            TreeNodeType::Project(p) => TreeNodeType::Project(p.clone()),
        }
    }
}

/// Mathematical view of a [`TreeNode`]: a rose tree of rows.
#[verifier::ext_equal]
pub struct TreeNodeView {
    pub name: Seq<char>,
    pub node_type: TreeNodeTypeView,
    pub expanded: bool,
    pub children: Seq<TreeNodeView>,
    pub selected: bool,
}

/// A node of the navigation tree.
#[derive(Debug, PartialEq)]
pub struct TreeNode {
    /// Display name for this node.
    pub name: String,
    /// Node type for different handling.
    pub node_type: TreeNodeType,
    /// Whether this node is expanded.
    pub expanded: bool,
    /// Child nodes.
    pub children: Vec<TreeNode>,
    /// Whether this node is currently selected.
    pub selected: bool,
}

/// The views of the nodes of a vector, in order.
pub open spec fn tree_seq_view(nodes: Seq<TreeNode>) -> Seq<TreeNodeView>
    decreases nodes,
{
    if nodes.len() == 0 {
        Seq::empty()
    } else {
        seq![nodes[0].deep()] + tree_seq_view(nodes.drop_first())
    }
}

impl TreeNode {
    /// The view of this node and of everything below it.
    pub open spec fn deep(self) -> TreeNodeView
        decreases self,
    {
        TreeNodeView {
            name: self.name@,
            node_type: self.node_type@,
            expanded: self.expanded,
            children: tree_seq_view(self.children@),
            selected: self.selected,
        }
    }
}

impl View for TreeNode {
    type V = TreeNodeView;

    open spec fn view(&self) -> TreeNodeView {
        self.deep()
    }
}

/// `tree_seq_view` is the elementwise view.
pub proof fn lemma_tree_seq_view_index(nodes: Seq<TreeNode>)
    ensures
        tree_seq_view(nodes).len() == nodes.len(),
        forall|i: int|
            0 <= i < nodes.len() ==> #[trigger] tree_seq_view(nodes)[i] == nodes[i].deep(),
    decreases nodes,
{
    if nodes.len() > 0 {
        lemma_tree_seq_view_index(nodes.drop_first());
    }
}

impl TreeNode {
    pub fn new_domain(domain: AtlassianDomain) -> (r: Self)
        ensures
            r@ == (TreeNodeView {
                name: domain@.name,
                node_type: TreeNodeTypeView::Domain(domain@),
                expanded: false,
                children: Seq::empty(),
                selected: false,
            }),
    {
        let name = domain.name.clone();
        let r = TreeNode {
            name,
            node_type: TreeNodeType::Domain(domain),
            expanded: false,
            children: Vec::new(),
            selected: false,
        };
        proof {
            assert(tree_seq_view(r.children@) =~= Seq::<TreeNodeView>::empty());
        }
        r
    }

    pub fn new_product(product: AtlassianProduct) -> (r: Self)
        ensures
            r@ == (TreeNodeView {
                name: product@.name,
                node_type: TreeNodeTypeView::Product(product@),
                expanded: false,
                children: Seq::empty(),
                selected: false,
            }),
    {
        let name = product.name.clone();
        let r = TreeNode {
            name,
            node_type: TreeNodeType::Product(product),
            expanded: false,
            children: Vec::new(),
            selected: false,
        };
        proof {
            assert(tree_seq_view(r.children@) =~= Seq::<TreeNodeView>::empty());
        }
        r
    }

    pub fn new_project(project: Project) -> (r: Self)
        ensures
            r@ == (TreeNodeView {
                name: project@.name,
                node_type: TreeNodeTypeView::Project(project@),
                expanded: false,
                children: Seq::empty(),
                selected: false,
            }),
    {
        let name = project.name.clone();
        let r = TreeNode {
            name,
            node_type: TreeNodeType::Project(project),
            expanded: false,
            children: Vec::new(),
            selected: false,
        };
        proof {
            assert(tree_seq_view(r.children@) =~= Seq::<TreeNodeView>::empty());
        }
        r
    }

    /// Toggle expansion state.
    pub fn toggle_expansion(&mut self)
        ensures
            final(self)@ == (TreeNodeView { expanded: !old(self)@.expanded, ..old(self)@ }),
    {
        self.expanded = !self.expanded;
    }

    /// Set selection state.
    pub fn set_selected(&mut self, selected: bool)
        ensures
            final(self)@ == (TreeNodeView { selected, ..old(self)@ }),
    {
        self.selected = selected;
    }
}

} // verus!
